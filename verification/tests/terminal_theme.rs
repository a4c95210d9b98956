use terminal_control::frame::{default_background, default_foreground, Color};
use terminal_control::shot::append_color_response;
use terminal_control::terminal_theme::{
    color_texts, discover, may_query, parse_replies, read_fields, split_input, theme_query,
    ColorTable, PieceKind, Query, Replies, TerminalTheme,
};

fn channel(text: &str) -> Option<u8> {
    let value = u64::from_str_radix(text, 16).ok()?;
    let most = (1u64 << (4 * text.len())) - 1;
    Some((value * 255 / most) as u8)
}

fn color(text: &str) -> Option<Color> {
    let mut parts = text.strip_prefix("rgb:")?.split('/');
    let color = Color {
        r: channel(parts.next()?)?,
        g: channel(parts.next()?)?,
        b: channel(parts.next()?)?,
    };
    match parts.next() {
        Some(_) => None,
        None => Some(color),
    }
}

fn table(bytes: &[u8]) -> ColorTable {
    let mut table = ColorTable::new();
    for text in color_texts(bytes) {
        let text = text.into_iter().collect::<String>();
        if let Some(color) = color(&text) {
            table.insert(&text, color);
        }
    }
    table
}

fn parsed(bytes: &[u8]) -> (Replies, Vec<u8>) {
    parse_replies(bytes, &table(bytes))
}

#[test]
fn parses_theme_replies_and_preserves_unrelated_input() {
    let bytes = b"before\x1b]10;rgb:ffff/8080/1212\x07\x1b]11;rgb:1/2/3\x1b\\\
        \x1b]4;0;rgb:0000/1111/2222;15;rgb:f/e/d\x9c\x1b[?62;4cafter";
    let (replies, retained) = parsed(bytes);

    assert_eq!(
        replies.foreground,
        Some(Color { r: 255, g: 128, b: 18 })
    );
    assert_eq!(
        replies.background,
        Some(Color { r: 17, g: 34, b: 51 })
    );
    assert_eq!(replies.ansi[0], Some(Color { r: 0, g: 17, b: 34 }));
    assert_eq!(
        replies.ansi[15],
        Some(Color { r: 255, g: 238, b: 221 })
    );
    assert!(replies.saw_device_attributes);
    assert_eq!(retained, b"beforeafter");
}

#[test]
fn preserves_unknown_and_incomplete_control_sequences() {
    let bytes = b"a\x1b]52;c;secret\x07b\x1b[Ac\x1b[1c\x1b]10;invalid\x07\x1b]4;99;rgb:f/0/0\x07\x1b]10;rgb:ffff";
    let (replies, retained) = parsed(bytes);

    assert_eq!(replies.foreground, None);
    assert_eq!(retained, bytes);
}

#[test]
fn requires_both_default_colors_but_applies_individual_ansi_slots() {
    let (replies, _) = parsed(b"\x1b]10;rgb:fff/fff/fff\x07\x1b]4;1;rgb:f/0/0\x07");
    let theme = replies.apply(TerminalTheme::default());

    assert_eq!(theme.foreground, default_foreground());
    assert_eq!(theme.background, default_background());
    assert_eq!(theme.ansi[1], Color { r: 255, g: 0, b: 0 });
}

#[test]
fn input_is_cut_into_pieces_that_cover_it() {
    let bytes = b"ab\x1b]10;x\x07\x1b[?6cc\x1b]open";
    let pieces = split_input(bytes);
    let total = pieces.iter().map(|piece| piece.after - piece.start).sum::<usize>();
    assert_eq!(total, bytes.len());
    assert!(matches!(pieces[0].kind, PieceKind::Other));
    assert_eq!(
        color_texts(b"\x1b]10;x\x07\x1b]4;1;y;2;z\x07")
            .into_iter()
            .map(|text| text.into_iter().collect::<String>())
            .collect::<Vec<_>>(),
        ["x", "y", "z"]
    );
    assert!(read_fields(b"\xff").is_none());
    assert_eq!(read_fields(b"4;1").unwrap(), [vec!['4'], vec!['1']]);
}

#[test]
fn terminals_are_asked_for_every_color() {
    let query = String::from_utf8(theme_query()).unwrap();
    assert!(query.contains("\x1b]10;?"));
    assert!(query.contains("\x1b]11;?"));
    assert!(query.contains("15;?"));
    assert!(query.ends_with("\x1b[c"));
    assert!(may_query(Some("xterm"), false, false, true, true));
    assert!(may_query(None, false, false, true, true));
    assert!(!may_query(Some("dumb"), false, false, true, true));
    assert!(!may_query(Some("xterm"), true, false, true, true));
    assert!(!may_query(Some("xterm"), false, true, true, true));
    assert!(!may_query(Some("xterm"), false, false, false, true));
    assert!(!may_query(Some("xterm"), false, false, true, false));
}

#[test]
fn answers_are_awaited_until_the_device_attributes_and_a_little_longer() {
    let mut query = Query::start(0);
    assert_eq!(query.next_read(0), Some(4096));
    let first = b"typed\x1b]10;rgb:f/f/f\x07\x1b[?6c";
    assert!(!query.accept(first, &table(first), 100));
    assert_eq!(query.read_deadline(), 25_000_100);
    assert_eq!(query.next_read(25_000_099), Some(4096));
    assert_eq!(query.next_read(25_000_100), None);
    let more = b"\x1b]11;rgb:0/0/f\x07";
    let all = [first.as_slice(), more].concat();
    assert!(!query.accept(more, &table(&all), 200));
    let (theme, retained) = query.finish(&table(&all));
    assert_eq!(theme.foreground, Color { r: 255, g: 255, b: 255 });
    assert_eq!(theme.background, Color { r: 0, g: 0, b: 255 });
    assert_eq!(retained, b"typed");

    let (theme, retained) = discover(None);
    assert_eq!(theme.foreground, default_foreground());
    assert!(retained.is_empty());
}

#[test]
fn complete_answers_end_the_wait() {
    let mut bytes = b"\x1b]10;rgb:f/f/f\x07\x1b]11;rgb:0/0/0\x07".to_vec();
    for slot in 0..16 {
        bytes.extend_from_slice(format!("\x1b]4;{slot};rgb:1/2/3\x07").as_bytes());
    }
    bytes.extend_from_slice(b"\x1b[?6c");
    let mut query = Query::start(0);
    assert!(query.accept(&bytes, &table(&bytes), 1));
    assert!(parsed(&bytes).0.complete());
}

#[test]
fn a_theme_is_discovered_from_its_own_answers() {
    let mut theme = TerminalTheme::default();
    theme.foreground = Color { r: 1, g: 34, b: 254 };
    theme.background = Color { r: 0, g: 128, b: 255 };
    theme.ansi[7] = Color { r: 9, g: 8, b: 7 };
    let mut bytes = Vec::new();
    append_color_response(&mut bytes, "10", theme.foreground);
    append_color_response(&mut bytes, "11", theme.background);
    for (slot, color) in theme.ansi.iter().enumerate() {
        append_color_response(&mut bytes, &format!("4;{slot}"), *color);
    }
    let (replies, retained) = parsed(&bytes);
    assert!(replies.complete());
    assert!(retained.is_empty());
    assert_eq!(replies.apply(TerminalTheme::default()), theme);
}
