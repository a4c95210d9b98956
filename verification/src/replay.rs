//! Replaying terminal output into a frame with the `vt100` terminal emulator.
use crate::frame;
use crate::frame::{Attributes, Cell, Color, Cursor, Frame, Underline};
use vstd::prelude::*;

pub mod reach;
pub mod width;

verus! {

/// A `vt100::Parser` without scrollback. What it holds is the output that was fed to it.
#[verifier::external_body]
pub struct Replay {
    parser: vt100::Parser,
}

/// The output fed to a replay, chunk by chunk in the order in which it was fed.
pub uninterp spec fn fed(replay: Replay) -> Seq<Seq<u8>>;

/// The rows and columns that a replay was made with.
pub uninterp spec fn made_with(replay: Replay) -> (u16, u16);

/// The color of a screen cell before the theme is applied.
#[derive(Clone, Copy, Debug, PartialEq, Eq, Structural)]
pub enum ScreenColor {
    Default,
    Idx(u8),
    Rgb(u8, u8, u8),
}

/// One position of the emulated screen.
#[derive(Debug)]
pub struct ScreenCell {
    pub text: String,
    pub wide: bool,
    pub continuation: bool,
    pub bold: bool,
    pub dim: bool,
    pub italic: bool,
    pub underline: bool,
    pub inverse: bool,
}

/// What a [`ScreenCell`] holds.
pub struct ScreenCellView {
    pub text: Seq<char>,
    pub wide: bool,
    pub continuation: bool,
    pub bold: bool,
    pub dim: bool,
    pub italic: bool,
    pub underline: bool,
    pub inverse: bool,
}

impl View for ScreenCell {
    type V = ScreenCellView;

    open spec fn view(&self) -> ScreenCellView {
        ScreenCellView {
            text: self.text@,
            wide: self.wide,
            continuation: self.continuation,
            bold: self.bold,
            dim: self.dim,
            italic: self.italic,
            underline: self.underline,
            inverse: self.inverse,
        }
    }
}

/// The screen cell at a row and a column after output was replayed, as `vt100::Screen::cell`
/// gives it.
pub uninterp spec fn screen_cell(
    rows: u16,
    cols: u16,
    chunks: Seq<Seq<u8>>,
    row: u16,
    col: u16,
) -> Option<ScreenCellView>;

/// The foreground of a screen cell after output was replayed, as `vt100::Cell::fgcolor` gives it.
pub uninterp spec fn screen_foreground(
    rows: u16,
    cols: u16,
    chunks: Seq<Seq<u8>>,
    row: u16,
    col: u16,
) -> Option<ScreenColor>;

/// The background of a screen cell after output was replayed, as `vt100::Cell::bgcolor` gives it.
pub uninterp spec fn screen_background(
    rows: u16,
    cols: u16,
    chunks: Seq<Seq<u8>>,
    row: u16,
    col: u16,
) -> Option<ScreenColor>;

/// The cursor's row and column after output was replayed, as `vt100::Screen::cursor_position`
/// gives them.
pub uninterp spec fn screen_cursor(rows: u16, cols: u16, chunks: Seq<Seq<u8>>) -> (u16, u16);

/// Whether the cursor is hidden after output was replayed, as `vt100::Screen::hide_cursor` tells.
pub uninterp spec fn screen_cursor_hidden(rows: u16, cols: u16, chunks: Seq<Seq<u8>>) -> bool;

/// The plain text of the screen after output was replayed, as `vt100::Screen::contents` gives it.
pub uninterp spec fn screen_contents(rows: u16, cols: u16, chunks: Seq<Seq<u8>>) -> Seq<char>;

/// Whether a terminal of this size can be emulated.
pub open spec fn can_emulate(rows: u16, cols: u16) -> bool {
    rows > 0 && cols > 0
}

/// Whether a terminal of this size can be emulated.
pub fn is_size(rows: u16, cols: u16) -> (result: bool)
    ensures
        result == can_emulate(rows, cols),
{
    rows > 0 && cols > 0
}

/// Chunks of output one after the other.
pub open spec fn joined(chunks: Seq<Seq<u8>>) -> Seq<u8>
    decreases chunks.len(),
{
    if chunks.len() == 0 {
        Seq::empty()
    } else {
        joined(chunks.drop_last()) + chunks.last()
    }
}

/// One chunk is all of the output.
pub proof fn lemma_joined_one(chunk: Seq<u8>)
    ensures
        joined(seq![chunk]) == chunk,
{
    reveal_with_fuel(joined, 2);
    assert(seq![chunk].drop_last() =~= Seq::empty());
    assert(joined(seq![chunk]) =~= chunk);
}

/// Widest terminal in which the cursor, which may stand behind the last column, has a next tab
/// stop: `vt100` counts columns in sixteen bits.
pub const MAX_TAB_COLS: u16 = 65527;

/// Whether output leaves the tab stops alone or the terminal is narrow enough for them.
pub open spec fn has_tab_stops(cols: u16, output: Seq<u8>) -> bool {
    cols <= MAX_TAB_COLS || forall|i: int| 0 <= i < output.len() ==> #[trigger] output[i] != 0x09
}

/// Whether output can be replayed in a terminal of this size. Every tab must find a stop. Every
/// character must find room in a row, and since `vt100` has no row to move to when text runs over
/// the end of the only one, a single row must hold its text. No character takes more than three
/// columns, so that two rows of three columns hold any text.
pub open spec fn can_replay(rows: u16, cols: u16, output: Seq<u8>) -> bool {
    &&& has_tab_stops(cols, output)
    &&& (rows > 1 && cols > 2) || (cols > 0 && reach::fits(rows <= 1, cols, output, 0, 0))
}

/// Whether every tab of output finds a stop.
fn finds_tab_stops(cols: u16, output: &[u8]) -> (result: bool)
    ensures
        result == has_tab_stops(cols, output@),
{
    if cols <= MAX_TAB_COLS {
        return true;
    }
    let mut index: usize = 0;
    while index < output.len()
        invariant
            index <= output@.len(),
            cols > MAX_TAB_COLS,
            forall|i: int| 0 <= i < index ==> #[trigger] output@[i] != 0x09,
        decreases output@.len() - index,
    {
        if output[index] == 0x09 {
            return false;
        }
        index += 1;
    }
    true
}

/// Whether output can be replayed in a terminal of this size.
pub fn is_replayable(rows: u16, cols: u16, output: &[u8]) -> (result: bool)
    ensures
        result == can_replay(rows, cols, output@),
{
    finds_tab_stops(cols, output) && ((rows > 1 && cols > 2) || (cols > 0 && reach::is_fit(
        rows <= 1,
        cols,
        output,
    )))
}

/// Makes an empty terminal with `vt100::Parser::new`, without scrollback. It has no place for a
/// cursor where a size is zero.
#[verifier::external_body]
fn new_parser(rows: u16, cols: u16) -> (replay: Replay)
    requires
        can_emulate(rows, cols),
    ensures
        fed(replay) == Seq::<Seq<u8>>::empty(),
        made_with(replay) == (rows, cols),
{
    Replay { parser: vt100::Parser::new(rows, cols, 0) }
}

/// Feeds `bytes` with `vt100::Parser::process`: they follow what was fed before, and the size
/// stays. It is not called with output that [`can_replay`] leaves out, on which it may panic: where
/// a character takes more columns than there are, where a tab reaches beyond sixteen bits, and
/// where text runs over the end of an only row.
#[verifier::external_body]
fn process_bytes(replay: &mut Replay, bytes: &[u8])
    requires
        can_replay(
            made_with(*old(replay)).0,
            made_with(*old(replay)).1,
            joined(fed(*old(replay)).push(bytes@)),
        ),
    ensures
        fed(*final(replay)) == fed(*old(replay)).push(bytes@),
        made_with(*final(replay)) == made_with(*old(replay)),
{
    replay.parser.process(bytes);
}

/// Reads a cell with `vt100::Screen::cell` and the accessors of `vt100::Cell`. The cell is the
/// one that [`screen_cell`] names.
#[verifier::external_body]
fn read_cell(replay: &Replay, row: u16, col: u16) -> (cell: Option<ScreenCell>)
    ensures
        (match cell {
            Some(cell) => Some(cell@),
            None => None,
        }) == screen_cell(
            made_with(*replay).0,
            made_with(*replay).1,
            fed(*replay),
            row,
            col,
        ),
{
    replay.parser.screen().cell(row, col).map(|cell| ScreenCell {
        text: cell.contents().to_owned(),
        wide: cell.is_wide(),
        continuation: cell.is_wide_continuation(),
        bold: cell.bold(),
        dim: cell.dim(),
        italic: cell.italic(),
        underline: cell.underline(),
        inverse: cell.inverse(),
    })
}

/// Reads the foreground of a cell with `vt100::Cell::fgcolor`, which [`screen_foreground`] names.
/// There is none where there is no cell.
#[verifier::external_body]
fn read_foreground(replay: &Replay, row: u16, col: u16) -> (color: Option<ScreenColor>)
    ensures
        color == screen_foreground(
            made_with(*replay).0,
            made_with(*replay).1,
            fed(*replay),
            row,
            col,
        ),
{
    replay.parser.screen().cell(row, col).map(|cell| match cell.fgcolor() {
        vt100::Color::Default => ScreenColor::Default,
        vt100::Color::Idx(index) => ScreenColor::Idx(index),
        vt100::Color::Rgb(r, g, b) => ScreenColor::Rgb(r, g, b),
    })
}

/// Reads the background of a cell with `vt100::Cell::bgcolor`, which [`screen_background`] names.
/// There is none where there is no cell.
#[verifier::external_body]
fn read_background(replay: &Replay, row: u16, col: u16) -> (color: Option<ScreenColor>)
    ensures
        color == screen_background(
            made_with(*replay).0,
            made_with(*replay).1,
            fed(*replay),
            row,
            col,
        ),
{
    replay.parser.screen().cell(row, col).map(|cell| match cell.bgcolor() {
        vt100::Color::Default => ScreenColor::Default,
        vt100::Color::Idx(index) => ScreenColor::Idx(index),
        vt100::Color::Rgb(r, g, b) => ScreenColor::Rgb(r, g, b),
    })
}

/// Reads the cursor with `vt100::Screen::cursor_position`, which [`screen_cursor`] names.
#[verifier::external_body]
fn read_cursor(replay: &Replay) -> (position: (u16, u16))
    ensures
        position == screen_cursor(
            made_with(*replay).0,
            made_with(*replay).1,
            fed(*replay),
        ),
{
    replay.parser.screen().cursor_position()
}

/// Reads whether the cursor is hidden with `vt100::Screen::hide_cursor`, which
/// [`screen_cursor_hidden`] names.
#[verifier::external_body]
fn read_cursor_hidden(replay: &Replay) -> (hidden: bool)
    ensures
        hidden == screen_cursor_hidden(
            made_with(*replay).0,
            made_with(*replay).1,
            fed(*replay),
        ),
{
    replay.parser.screen().hide_cursor()
}

/// Reads the size with `vt100::Screen::size`: rows and columns, as the terminal was made with.
#[verifier::external_body]
fn read_size(replay: &Replay) -> (size: (u16, u16))
    ensures
        size == made_with(*replay),
{
    replay.parser.screen().size()
}

/// Reads the plain text with `vt100::Screen::contents`, which [`screen_contents`] names.
#[verifier::external_body]
fn read_contents(replay: &Replay) -> (contents: String)
    ensures
        contents@ == screen_contents(
            made_with(*replay).0,
            made_with(*replay).1,
            fed(*replay),
        ),
{
    replay.parser.screen().contents()
}

/// The color that a screen color stands for, where `default` stands for none.
pub open spec fn resolved(color: ScreenColor, default: Color) -> Color {
    match color {
        ScreenColor::Default => default,
        ScreenColor::Idx(index) => frame::palette_color(index as int),
        ScreenColor::Rgb(r, g, b) => Color { r, g, b },
    }
}

fn resolve(color: ScreenColor, default: Color) -> (result: Color)
    ensures
        result == resolved(color, default),
{
    match color {
        ScreenColor::Default => default,
        ScreenColor::Idx(index) => frame::indexed_color(index),
        ScreenColor::Rgb(r, g, b) => Color { r, g, b },
    }
}

/// The frame cell for a screen position, if anything is to be drawn there: text, a background of
/// its own or an attribute. The second half of a wide character is drawn with the first.
pub open spec fn drawn_cell(
    cell: ScreenCellView,
    foreground: ScreenColor,
    background: ScreenColor,
    row: u16,
    col: u16,
) -> Option<frame::CellView> {
    let fore = resolved(foreground, frame::default_foreground());
    let back = resolved(background, frame::default_background());
    let attributes = Attributes {
        bold: cell.bold,
        italic: cell.italic,
        faint: cell.dim,
        underline: if cell.underline {
            Some(Underline::Single)
        } else {
            None
        },
        ..frame::plain_attributes()
    };
    let shown = frame::CellView {
        x: col,
        y: row,
        text: cell.text,
        width: if cell.wide {
            2
        } else {
            1
        },
        foreground: if cell.inverse {
            back
        } else {
            fore
        },
        background: if cell.inverse {
            fore
        } else {
            back
        },
        attributes,
    };
    if cell.continuation {
        None
    } else if cell.text.len() > 0 || shown.background != frame::default_background() || attributes
        != frame::plain_attributes() {
        Some(shown)
    } else {
        None
    }
}

/// The frame cell at a position after output was replayed.
pub open spec fn replayed_cell(
    rows: u16,
    cols: u16,
    chunks: Seq<Seq<u8>>,
    row: u16,
    col: u16,
) -> Option<frame::CellView> {
    match (
        screen_cell(rows, cols, chunks, row, col),
        screen_foreground(rows, cols, chunks, row, col),
        screen_background(rows, cols, chunks, row, col),
    ) {
        (Some(cell), Some(foreground), Some(background)) => drawn_cell(
            cell,
            foreground,
            background,
            row,
            col,
        ),
        _ => None,
    }
}

/// The frame cells of the first `count` columns of a row.
pub open spec fn replayed_row(
    rows: u16,
    cols: u16,
    chunks: Seq<Seq<u8>>,
    row: u16,
    count: nat,
) -> Seq<frame::CellView>
    decreases count,
{
    if count == 0 {
        Seq::empty()
    } else {
        let before = replayed_row(rows, cols, chunks, row, (count - 1) as nat);
        match replayed_cell(rows, cols, chunks, row, (count - 1) as u16) {
            Some(cell) => before.push(cell),
            None => before,
        }
    }
}

/// The frame cells of the first `count` rows.
pub open spec fn replayed_rows(
    rows: u16,
    cols: u16,
    chunks: Seq<Seq<u8>>,
    count: nat,
) -> Seq<frame::CellView>
    decreases count,
{
    if count == 0 {
        Seq::empty()
    } else {
        replayed_rows(rows, cols, chunks, (count - 1) as nat) + replayed_row(
            rows,
            cols,
            chunks,
            (count - 1) as u16,
            cols as nat,
        )
    }
}

/// The frame of a terminal of `rows` and `cols` after output was replayed.
pub open spec fn replayed_frame(
    rows: u16,
    cols: u16,
    chunks: Seq<Seq<u8>>,
) -> frame::FrameView {
    let position = screen_cursor(rows, cols, chunks);
    frame::FrameView {
        version: frame::FORMAT_VERSION,
        cols,
        rows,
        foreground: frame::default_foreground(),
        background: frame::default_background(),
        cursor: if screen_cursor_hidden(rows, cols, chunks) {
            None
        } else {
            Some(
                Cursor {
                    x: position.1,
                    y: position.0,
                    color: frame::default_foreground(),
                    blinking: false,
                },
            )
        },
        cells: replayed_rows(rows, cols, chunks, rows as nat),
    }
}

/// Draws one screen position.
pub fn draw_cell(
    cell: ScreenCell,
    foreground: ScreenColor,
    background: ScreenColor,
    row: u16,
    col: u16,
) -> (drawn: Option<Cell>)
    ensures
        (match drawn {
            Some(drawn) => Some(drawn@),
            None => None,
        }) == drawn_cell(cell@, foreground, background, row, col),
{
    let fore = resolve(foreground, frame::default_foreground());
    let back = resolve(background, frame::default_background());
    let underline = if cell.underline {
        Some(Underline::Single)
    } else {
        None
    };
    let attributes = Attributes {
        bold: cell.bold,
        italic: cell.italic,
        faint: cell.dim,
        invisible: false,
        strikethrough: false,
        overline: false,
        underline,
    };
    let (fore, back) = if cell.inverse {
        (back, fore)
    } else {
        (fore, back)
    };
    if cell.continuation {
        return None;
    }
    let styled = cell.bold || cell.italic || cell.dim || cell.underline;
    if !cell.text.as_str().is_empty() || !(back == frame::default_background()) || styled {
        Some(
            Cell {
                x: col,
                y: row,
                text: cell.text,
                width: if cell.wide {
                    2
                } else {
                    1
                },
                foreground: fore,
                background: back,
                attributes,
            },
        )
    } else {
        None
    }
}

impl Replay {
    /// An empty terminal.
    pub fn new(rows: u16, cols: u16) -> (replay: Replay)
        requires
            can_emulate(rows, cols),
        ensures
            fed(replay) == Seq::<Seq<u8>>::empty(),
            made_with(replay) == (rows, cols),
    {
        new_parser(rows, cols)
    }

    /// Feeds terminal output.
    pub fn process(&mut self, bytes: &[u8])
        requires
            can_replay(
                made_with(*old(self)).0,
                made_with(*old(self)).1,
                joined(fed(*old(self)).push(bytes@)),
            ),
        ensures
            fed(*final(self)) == fed(*old(self)).push(bytes@),
            made_with(*final(self)) == made_with(*old(self)),
    {
        process_bytes(self, bytes);
    }

    /// The plain text of the screen.
    pub fn contents(&self) -> (contents: String)
        ensures
            contents@ == screen_contents(made_with(*self).0, made_with(*self).1, fed(*self)),
    {
        read_contents(self)
    }

    /// Draws a row into `cells`.
    fn draw_row(&self, rows: u16, cols: u16, row: u16, cells: &mut Vec<Cell>)
        requires
            made_with(*self) == (rows, cols),
        ensures
            frame::cell_views(final(cells)@) == frame::cell_views(old(cells)@) + replayed_row(
                rows,
                cols,
                fed(*self),
                row,
                cols as nat,
            ),
    {
        let ghost before = frame::cell_views(cells@);
        let mut col: u16 = 0;
        assert(before + replayed_row(rows, cols, fed(*self), row, 0) =~= before);
        while col < cols
            invariant
                col <= cols,
                made_with(*self) == (rows, cols),
                before == frame::cell_views(old(cells)@),
                frame::cell_views(cells@) == before + replayed_row(
                    rows,
                    cols,
                    fed(*self),
                    row,
                    col as nat,
                ),
            decreases cols - col,
        {
            let ghost held = frame::cell_views(cells@);
            let drawn = match (
                read_cell(self, row, col),
                read_foreground(self, row, col),
                read_background(self, row, col),
            ) {
                (Some(cell), Some(foreground), Some(background)) => draw_cell(
                    cell,
                    foreground,
                    background,
                    row,
                    col,
                ),
                _ => None,
            };
            match drawn {
                Some(cell) => {
                    let ghost view = cell@;
                    cells.push(cell);
                    assert(frame::cell_views(cells@) =~= held.push(view));
                    assert(before + replayed_row(rows, cols, fed(*self), row, (col + 1) as nat)
                        =~= held.push(view));
                },
                None => {},
            }
            col += 1;
        }
    }

    /// The frame that the terminal shows.
    pub fn frame(&self) -> (frame: Frame)
        ensures
            frame@ == replayed_frame(made_with(*self).0, made_with(*self).1, fed(*self)),
    {
        let (rows, cols) = read_size(self);
        let mut cells: Vec<Cell> = Vec::new();
        let mut row: u16 = 0;
        assert(frame::cell_views(cells@) =~= replayed_rows(rows, cols, fed(*self), 0));
        while row < rows
            invariant
                row <= rows,
                made_with(*self) == (rows, cols),
                frame::cell_views(cells@) == replayed_rows(rows, cols, fed(*self), row as nat),
            decreases rows - row,
        {
            self.draw_row(rows, cols, row, &mut cells);
            row += 1;
        }
        let position = read_cursor(self);
        let cursor = if read_cursor_hidden(self) {
            None
        } else {
            Some(
                Cursor {
                    x: position.1,
                    y: position.0,
                    color: frame::default_foreground(),
                    blinking: false,
                },
            )
        };
        Frame {
            version: frame::FORMAT_VERSION,
            cols,
            rows,
            foreground: frame::default_foreground(),
            background: frame::default_background(),
            cursor,
            cells,
        }
    }
}

proof fn lemma_row_comes_from_positions(
    rows: u16,
    cols: u16,
    chunks: Seq<Seq<u8>>,
    row: u16,
    count: nat,
)
    requires
        count <= cols,
    ensures
        forall|i: int|
            0 <= i < replayed_row(rows, cols, chunks, row, count).len() ==> {
                let cell = #[trigger] replayed_row(rows, cols, chunks, row, count)[i];
                &&& cell.y == row
                &&& cell.x < count
                &&& replayed_cell(rows, cols, chunks, row, cell.x) == Some(cell)
            },
        forall|i: int, j: int|
            0 <= i < j < replayed_row(rows, cols, chunks, row, count).len() ==> (
            #[trigger] replayed_row(rows, cols, chunks, row, count)[i]).x < (
            #[trigger] replayed_row(rows, cols, chunks, row, count)[j]).x,
    decreases count,
{
    if count > 0 {
        lemma_row_comes_from_positions(rows, cols, chunks, row, (count - 1) as nat);
    }
}

proof fn lemma_position_is_in_row(
    rows: u16,
    cols: u16,
    chunks: Seq<Seq<u8>>,
    row: u16,
    col: u16,
    count: nat,
)
    requires
        col < count <= cols,
        replayed_cell(rows, cols, chunks, row, col) is Some,
    ensures
        replayed_row(rows, cols, chunks, row, count).contains(
            replayed_cell(rows, cols, chunks, row, col)->0,
        ),
    decreases count,
{
    let cell = replayed_cell(rows, cols, chunks, row, col)->0;
    let whole = replayed_row(rows, cols, chunks, row, count);
    let before = replayed_row(rows, cols, chunks, row, (count - 1) as nat);
    if col == count - 1 {
        assert(whole[before.len() as int] == cell);
    } else {
        lemma_position_is_in_row(rows, cols, chunks, row, col, (count - 1) as nat);
        let at = choose|at: int| 0 <= at < before.len() && before[at] == cell;
        assert(whole[at] == cell);
    }
}

proof fn lemma_rows_come_from_positions(rows: u16, cols: u16, chunks: Seq<Seq<u8>>, count: nat)
    requires
        count <= rows,
    ensures
        forall|i: int|
            0 <= i < replayed_rows(rows, cols, chunks, count).len() ==> {
                let cell = #[trigger] replayed_rows(rows, cols, chunks, count)[i];
                &&& cell.y < count
                &&& cell.x < cols
                &&& replayed_cell(rows, cols, chunks, cell.y, cell.x) == Some(cell)
            },
        forall|i: int, j: int|
            0 <= i < j < replayed_rows(rows, cols, chunks, count).len() ==> {
                let left = #[trigger] replayed_rows(rows, cols, chunks, count)[i];
                let right = #[trigger] replayed_rows(rows, cols, chunks, count)[j];
                left.y < right.y || (left.y == right.y && left.x < right.x)
            },
    decreases count,
{
    if count > 0 {
        lemma_rows_come_from_positions(rows, cols, chunks, (count - 1) as nat);
        lemma_row_comes_from_positions(rows, cols, chunks, (count - 1) as u16, cols as nat);
    }
}

proof fn lemma_row_is_in_rows(
    rows: u16,
    cols: u16,
    chunks: Seq<Seq<u8>>,
    row: u16,
    cell: frame::CellView,
    count: nat,
)
    requires
        row < count <= rows,
        replayed_row(rows, cols, chunks, row, cols as nat).contains(cell),
    ensures
        replayed_rows(rows, cols, chunks, count).contains(cell),
    decreases count,
{
    let before = replayed_rows(rows, cols, chunks, (count - 1) as nat);
    let last = replayed_row(rows, cols, chunks, (count - 1) as u16, cols as nat);
    let whole = replayed_rows(rows, cols, chunks, count);
    assert(whole == before + last);
    if row == count - 1 {
        let at = choose|at: int| 0 <= at < last.len() && last[at] == cell;
        assert(whole[before.len() + at] == cell);
    } else {
        lemma_row_is_in_rows(rows, cols, chunks, row, cell, (count - 1) as nat);
        let at = choose|at: int| 0 <= at < before.len() && before[at] == cell;
        assert(whole[at] == cell);
    }
}

/// What the emulated terminal shows at a position, the frame shows there: its text, its own colors
/// or the default ones, exchanged where it is inverse, and its attributes. A position with neither
/// text nor a background of its own nor an attribute has no cell, nor has the second half of a wide
/// character.
pub proof fn lemma_screen_is_drawn(
    rows: u16,
    cols: u16,
    chunks: Seq<Seq<u8>>,
    row: u16,
    col: u16,
    cell: ScreenCellView,
    foreground: ScreenColor,
    background: ScreenColor,
)
    requires
        row < rows,
        col < cols,
        screen_cell(rows, cols, chunks, row, col) == Some(cell),
        screen_foreground(rows, cols, chunks, row, col) == Some(foreground),
        screen_background(rows, cols, chunks, row, col) == Some(background),
    ensures
        ({
            let frame = replayed_frame(rows, cols, chunks);
            let color = |own: ScreenColor, default: Color|
                match own {
                    ScreenColor::Default => default,
                    ScreenColor::Idx(index) => frame::palette_color(index as int),
                    ScreenColor::Rgb(r, g, b) => Color { r, g, b },
                };
            let fore = color(foreground, frame.foreground);
            let back = color(background, frame.background);
            let behind = if cell.inverse {
                fore
            } else {
                back
            };
            let shown = !cell.continuation && (cell.text.len() > 0 || behind != frame.background
                || cell.bold || cell.dim || cell.italic || cell.underline);
            &&& shown <==> exists|i: int|
                0 <= i < frame.cells.len() && (#[trigger] frame.cells[i]).x == col
                    && frame.cells[i].y == row
            &&& forall|i: int|
                0 <= i < frame.cells.len() && (#[trigger] frame.cells[i]).x == col
                    && frame.cells[i].y == row ==> {
                    let drawn = frame.cells[i];
                    &&& drawn.text == cell.text
                    &&& drawn.width == (if cell.wide {
                        2u8
                    } else {
                        1u8
                    })
                    &&& drawn.foreground == (if cell.inverse {
                        back
                    } else {
                        fore
                    })
                    &&& drawn.background == behind
                    &&& drawn.attributes.bold == cell.bold
                    &&& drawn.attributes.faint == cell.dim
                    &&& drawn.attributes.italic == cell.italic
                    &&& drawn.attributes.underline == (if cell.underline {
                        Some(Underline::Single)
                    } else {
                        None
                    })
                    &&& !drawn.attributes.invisible && !drawn.attributes.strikethrough
                        && !drawn.attributes.overline
                }
        }),
{
    lemma_rows_come_from_positions(rows, cols, chunks, rows as nat);
    let cells = replayed_rows(rows, cols, chunks, rows as nat);
    assert(replayed_frame(rows, cols, chunks).cells == cells);
    match replayed_cell(rows, cols, chunks, row, col) {
        Some(drawn) => {
            lemma_position_is_in_row(rows, cols, chunks, row, col, cols as nat);
            lemma_row_is_in_rows(rows, cols, chunks, row, drawn, rows as nat);
            let at = choose|at: int| 0 <= at < cells.len() && cells[at] == drawn;
            assert(cells[at].x == col && cells[at].y == row);
        },
        None => {},
    }
}

/// A replayed frame has the size of its terminal and the default colors, and its cells stand in the
/// terminal, row by row from left to right, one at a position. Its cursor is where the terminal's
/// is, unless that is hidden.
pub proof fn lemma_replayed_frame_is_the_terminals(rows: u16, cols: u16, chunks: Seq<Seq<u8>>)
    ensures
        ({
            let frame = replayed_frame(rows, cols, chunks);
            &&& frame.version == 1
            &&& frame.rows == rows && frame.cols == cols
            &&& frame.foreground == (Color { r: 229, g: 229, b: 229 })
            &&& frame.background == (Color { r: 0, g: 0, b: 0 })
            &&& frame.cursor is None <==> screen_cursor_hidden(rows, cols, chunks)
            &&& frame.cursor matches Some(cursor) ==> {
                &&& (cursor.y, cursor.x) == screen_cursor(rows, cols, chunks)
                &&& cursor.color == frame.foreground
                &&& !cursor.blinking
            }
            &&& forall|i: int|
                0 <= i < frame.cells.len() ==> (#[trigger] frame.cells[i]).x < cols
                    && frame.cells[i].y < rows
            &&& forall|i: int, j: int|
                0 <= i < j < frame.cells.len() ==> (#[trigger] frame.cells[i]).y < (
                #[trigger] frame.cells[j]).y || (frame.cells[i].y == frame.cells[j].y
                    && frame.cells[i].x < frame.cells[j].x)
        }),
{
    lemma_rows_come_from_positions(rows, cols, chunks, rows as nat);
}

/// Chunks of output are replayed one after the other.
pub proof fn lemma_chunks_follow(chunks: Seq<Seq<u8>>, chunk: Seq<u8>)
    ensures
        joined(Seq::<Seq<u8>>::empty()).len() == 0,
        joined(chunks.push(chunk)) == joined(chunks) + chunk,
{
    assert(chunks.push(chunk).drop_last() =~= chunks);
}

/// A terminal has at least one row and one column.
pub proof fn lemma_terminals_have_cells(rows: u16, cols: u16)
    ensures
        can_emulate(rows, cols) <==> rows != 0 && cols != 0,
{
}

} // verus!
