use terminal_control::frame::{default_background, default_foreground, indexed_color, Color};
use terminal_control::terminal_core::{
    has_attributes, theme_palette, CellWide, Dirty, RawCell, RawCursor, RawRow, Snapshot, Style,
    TerminalCore,
};
use terminal_control::terminal_theme::TerminalTheme;

const PLAIN: Style = Style {
    bold: false,
    italic: false,
    faint: false,
    invisible: false,
    strikethrough: false,
    overline: false,
    inverse: false,
    underlined: false,
};

fn cell(text: &str) -> RawCell {
    RawCell {
        wide: CellWide::Narrow,
        style: PLAIN,
        foreground: None,
        background: None,
        text: text.to_owned(),
    }
}

fn line(dirty: bool, text: &str) -> RawRow {
    let mut cells = text
        .chars()
        .map(|ch| cell(&ch.to_string()))
        .collect::<Vec<_>>();
    cells.resize_with(10, || cell(""));
    RawRow { dirty, cells }
}

fn snapshot(dirty: Dirty, lines: Vec<RawRow>) -> Snapshot {
    Snapshot {
        dirty,
        cols: 10,
        rows: lines.len() as u16,
        foreground: default_foreground(),
        background: default_background(),
        cursor: RawCursor {
            visible: false,
            position: None,
            color: None,
            blinking: false,
        },
        lines,
    }
}

#[test]
fn repeated_frames_are_complete_snapshots() {
    let mut terminal = TerminalCore::new();
    terminal.apply_output(5);

    assert_eq!(
        terminal.frame(&snapshot(Dirty::Full, vec![line(true, "ready")])).text(),
        "ready"
    );
    assert_eq!(
        terminal.frame(&snapshot(Dirty::Clean, vec![line(false, "ready")])).text(),
        "ready"
    );
}

#[test]
fn retained_render_state_merges_dirty_rows_into_complete_frames() {
    let mut terminal = TerminalCore::new();
    let first = snapshot(
        Dirty::Full,
        vec![line(true, "alpha"), line(true, "beta"), line(true, "")],
    );
    assert_eq!(terminal.frame(&first).text(), "alpha\nbeta");

    let second = snapshot(
        Dirty::Partial,
        vec![line(false, "-----"), line(true, "Beta"), line(false, "-----")],
    );
    let updated = terminal.frame(&second);
    assert_eq!(updated.text(), "alpha\nBeta");
    let clean = snapshot(
        Dirty::Clean,
        vec![line(false, "-----"), line(false, "-----"), line(false, "-----")],
    );
    assert_eq!(terminal.frame(&clean), updated);

    let third = snapshot(
        Dirty::Partial,
        vec![line(false, "-----"), line(true, ""), line(false, "-----")],
    );
    assert_eq!(terminal.frame(&third).text(), "alpha");
}

#[test]
fn every_change_counts_and_forgets_what_it_invalidates() {
    let mut terminal = TerminalCore::new();
    assert_eq!(terminal.revision(), 0);
    terminal.apply_output(0);
    assert_eq!(terminal.revision(), 0);
    terminal.apply_output(3);
    assert_eq!(terminal.revision(), 1);
    terminal.frame(&snapshot(Dirty::Full, vec![line(true, "a")]));
    assert!(!terminal.is_full(Dirty::Partial, 10, 1));
    assert!(terminal.is_full(Dirty::Full, 10, 1));
    assert!(terminal.is_full(Dirty::Partial, 11, 1));
    terminal.set_theme();
    assert_eq!(terminal.revision(), 2);
    assert!(terminal.is_full(Dirty::Clean, 10, 1));
    terminal.resize();
    assert_eq!(terminal.revision(), 3);
}

#[test]
fn cells_keep_colors_attributes_and_width() {
    let red = Color { r: 200, g: 1, b: 2 };
    let mut wide = cell("界");
    wide.wide = CellWide::Wide;
    let mut tail = cell("");
    tail.wide = CellWide::SpacerTail;
    let mut inverse = cell("i");
    inverse.style.inverse = true;
    inverse.style.bold = true;
    inverse.foreground = Some(red);
    let mut painted = cell("");
    painted.background = Some(red);
    let mut shot = snapshot(
        Dirty::Full,
        vec![RawRow {
            dirty: true,
            cells: vec![wide, tail, inverse, cell(""), painted],
        }],
    );
    shot.cols = 5;
    shot.cursor = RawCursor {
        visible: true,
        position: Some((3, 0)),
        color: Some(red),
        blinking: true,
    };
    let frame = TerminalCore::new().frame(&shot);
    assert_eq!((frame.cells[0].x, frame.cells[0].width), (0, 2));
    assert_eq!(frame.cells[1].x, 2);
    assert_eq!(frame.cells[1].foreground, default_background());
    assert_eq!(frame.cells[1].background, red);
    assert!(frame.cells[1].attributes.bold);
    assert_eq!(frame.cells[2].x, 4);
    assert_eq!(frame.cells[2].background, red);
    assert_eq!(frame.cells.len(), 3);
    let cursor = frame.cursor.unwrap();
    assert_eq!((cursor.x, cursor.y), (3, 0));
    assert!(has_attributes(&frame.cells[1].attributes));
    assert!(!has_attributes(&frame.cells[0].attributes));
}

#[test]
fn palettes_begin_with_the_theme() {
    let theme = TerminalTheme {
        foreground: Color { r: 1, g: 2, b: 3 },
        background: Color { r: 4, g: 5, b: 6 },
        ansi: std::array::from_fn(|index| Color {
            r: index as u8,
            g: 20,
            b: 30,
        }),
    };
    let palette = theme_palette(&theme);
    assert_eq!(palette.len(), 256);
    assert_eq!(palette[9], Color { r: 9, g: 20, b: 30 });
    assert_eq!(palette[16], indexed_color(16));
    assert_eq!(palette[214], Color { r: 255, g: 175, b: 0 });
    assert_eq!(palette[255], Color { r: 238, g: 238, b: 238 });
}

#[test]
fn frames_do_not_depend_on_how_often_a_terminal_was_read() {
    let unchanged = || RawRow { dirty: false, cells: Vec::new() };
    let full = || snapshot(Dirty::Full, vec![line(true, "one"), line(true, "two")]);
    let changed = || snapshot(Dirty::Partial, vec![line(true, "ONE"), unchanged()]);
    let last = || snapshot(Dirty::Partial, vec![unchanged(), line(true, "TWO")]);
    let mut often = TerminalCore::new();
    often.frame(&full());
    often.frame(&changed());
    let mut clean = snapshot(Dirty::Clean, Vec::new());
    clean.rows = 2;
    often.frame(&clean);
    let drawn = often.frame(&last());

    let mut rarely = TerminalCore::new();
    rarely.frame(&full());
    let merged = snapshot(Dirty::Partial, vec![line(true, "ONE"), line(true, "TWO")]);
    assert_eq!(rarely.frame(&merged), drawn);
    assert_eq!(TerminalCore::new().frame(&merged), drawn);
    assert_eq!(drawn.text(), "ONE\nTWO");
}
