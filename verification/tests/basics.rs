use terminal_control::environment::{push_remove, push_set, push_variables, EnvAction, Variables};
use terminal_control::frame::{indexed_color, is_blank, is_white_space, Color};
use terminal_control::replay::Replay;
use terminal_control::text::{
    bytes_contain, decimal, hexadecimal, is_up_to, parse_unsigned, split_fields, text_contains,
};
use terminal_control::workspace::{ActivityKind, TabPosition};

#[test]
fn numbers_are_written_and_read() {
    assert_eq!(decimal(0), "0");
    assert_eq!(decimal(u64::MAX), "18446744073709551615");
    assert_eq!(hexadecimal(0xabc, 6), "000abc");
    let chars = |text: &str| text.chars().collect::<Vec<_>>();
    assert_eq!(parse_unsigned(&chars("42"), 255), Some(42));
    assert_eq!(parse_unsigned(&chars("+7"), 255), Some(7));
    assert_eq!(parse_unsigned(&chars("256"), 255), None);
    assert_eq!(parse_unsigned(&chars(""), 255), None);
    assert_eq!(parse_unsigned(&chars("-1"), 255), None);
    assert_eq!(
        split_fields(&chars("a;;b"), ';'),
        [vec!['a'], vec![], vec!['b']]
    );
}

#[test]
fn parts_are_found() {
    assert!(bytes_contain(b"abcd", b"bc"));
    assert!(!bytes_contain(b"abcd", b"cb"));
    assert!(bytes_contain(b"", b""));
    assert!(text_contains("äbc", "bc"));
    assert!(!text_contains("äbc", "cb"));
    assert!(is_up_to("a", "ab"));
    assert!(is_up_to("B", "a"));
    assert!(!is_up_to("é", "z"));
}

#[test]
fn variables_keep_their_last_value() {
    let mut variables = Variables::new();
    variables.set("B".to_owned(), "1".to_owned());
    variables.set("A".to_owned(), "2".to_owned());
    variables.set("B".to_owned(), "3".to_owned());
    assert_eq!(variables.get("B").map(String::as_str), Some("3"));
    assert_eq!(variables.get("C"), None);
    let mut actions = Vec::new();
    push_set(&mut actions, "X", "y");
    push_remove(&mut actions, "Z");
    push_variables(&mut actions, &variables);
    let shown = actions
        .iter()
        .map(|action| match action {
            EnvAction::Assign { key, value } => format!("{key}={value}"),
            EnvAction::Remove { key } => format!("-{key}"),
            other => format!("{other:?}"),
        })
        .collect::<Vec<_>>();
    assert_eq!(shown, ["X=y", "-Z", "B=3", "A=2"]);
}

#[test]
fn indexed_colors_are_the_usual_ones() {
    assert_eq!(indexed_color(16), Color { r: 0, g: 0, b: 0 });
    assert_eq!(indexed_color(214), Color { r: 255, g: 175, b: 0 });
    assert_eq!(indexed_color(232), Color { r: 8, g: 8, b: 8 });
    assert_eq!(indexed_color(255), Color { r: 238, g: 238, b: 238 });
    assert_eq!(indexed_color(214).css(), "#ffaf00");
}

#[test]
fn frames_show_their_text() {
    let mut replay = Replay::new(3, 6);
    replay.process(b"a  b\r\n\r\n  c");
    let frame = replay.frame();
    assert_eq!(frame.text(), "a  b\n\n  c");
    assert!(frame.has_visible_content());
    assert!(!Replay::new(1, 1).frame().has_visible_content());
    assert!(is_white_space('\u{2003}'));
    assert!(!is_white_space('\u{200b}'));
    assert!(is_blank(" \t"));
    assert!(!is_blank(" x"));
}

#[test]
fn words_of_the_workspace() {
    assert_eq!(TabPosition::Top.as_str(), "top");
    assert_eq!(TabPosition::Bottom.as_str(), "bottom");
    assert_eq!(ActivityKind::Bell.as_str(), "bell");
}
