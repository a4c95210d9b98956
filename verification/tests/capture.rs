use terminal_control::capture::{
    ansi, check_launch, configure_environment, retain, terminal, Host, Options, Run,
};
use terminal_control::environment::EnvAction;
use terminal_control::frame::{indexed_color, Color, Underline};
use terminal_control::shot::{Chunk, Next, ShotError};

const MS: u128 = 1_000_000;

fn options() -> Options {
    Options {
        cols: 100,
        rows: 24,
        cell_width: 9,
        cell_height: 20,
        settle: 0,
        deadline: 0,
        input: Vec::new(),
        initial_delay: 0,
        wait_for: None,
        max_bytes: 1,
        opentui_host: true,
    }
}

#[test]
fn capture_responds_to_split_opentui_query_with_requested_geometry() {
    let mut host = Host::new(&options());

    let mut written = host.respond(b"\x1b]10;?\x07");
    written.extend(host.respond(b"\x1b]11;?\x07"));
    written.extend(host.respond(b"\x1b]4;0;?\x07"));
    written.extend(host.respond(b"\x1b_Gi=31337,s=1,v=1,a=q,t=d,f=24;AAAA\x1b\\"));

    let output = String::from_utf8(written).unwrap();
    assert!(output.contains("\x1b[4;480;900t"));
    assert!(output.contains("\x1b]4;0;rgb:0000/0000/0000\x1b\\"));
    assert!(output.contains("\x1b_Gi=31337;OK\x1b\\"));
}

#[test]
fn replayed_streams_keep_colors_and_attributes() {
    let captured = ansi(
        b"\x1b[1;3;4;38;5;214;48;2;30;34;42mwide: ".to_vec(),
        2,
        20,
        1024,
    )
    .unwrap();

    assert_eq!(captured.frame.text(), "wide:");
    assert_eq!(captured.frame.cells[0].foreground, indexed_color(214));
    assert_eq!(
        captured.frame.cells[0].background,
        Color { r: 30, g: 34, b: 42 }
    );
    assert!(captured.frame.cells[0].attributes.bold);
    assert!(captured.frame.cells[0].attributes.italic);
    assert_eq!(
        captured.frame.cells[0].attributes.underline,
        Some(Underline::Single)
    );
    assert!(matches!(
        ansi(b"abc".to_vec(), 1, 1, 2),
        Err(ShotError::InputTooLong { max_bytes: 2 })
    ));
}

#[test]
fn replays_show_inverse_hidden_and_cursor() {
    let mut replay = terminal(2, 4);
    replay.process(b"\x1b[7ma\x1b[0m\r\n\x1b[?25h");
    let frame = replay.frame();
    assert_eq!(frame.cells[0].text, "a");
    assert_eq!(frame.cells[0].foreground, frame.background);
    assert_eq!(frame.cells[0].background, frame.foreground);
    let cursor = frame.cursor.unwrap();
    assert_eq!((cursor.x, cursor.y), (0, 1));
    replay.process(b"\x1b[?25l");
    assert!(replay.frame().cursor.is_none());
    assert_eq!(replay.contents(), "a");
}

#[test]
fn wide_characters_take_two_cells() {
    let mut replay = terminal(1, 6);
    replay.process("A界e".as_bytes());
    let frame = replay.frame();
    assert_eq!(frame.text(), "A界e");
    assert_eq!(frame.cells[1].text, "界");
    assert_eq!(frame.cells[1].width, 2);
    assert_eq!((frame.cells[2].x, frame.cells[2].text.as_str()), (3, "e"));
}

#[test]
fn captures_are_bounded_and_need_a_command() {
    let mut kept = b"a".to_vec();
    assert!(retain(&mut kept, b"bc", 2).is_err());
    assert!(retain(&mut kept, b"b", 2).is_ok());
    assert_eq!(kept, b"ab");
    assert!(check_launch(&Vec::new()).is_err());
    assert!(check_launch(&vec!["sh".to_owned()]).is_ok());
}

#[test]
fn settling_counts_from_the_end_of_the_delay() {
    let options = Options {
        settle: 50 * MS,
        deadline: 1000 * MS,
        initial_delay: 100 * MS,
        input: b"x".to_vec(),
        ..options()
    };
    let mut run = Run::start(&options);
    assert_eq!(run.step(&options, 0, ""), Next::Receive { timeout: 20 * MS });
    run.note(Chunk::Output, 10 * MS);
    assert_eq!(run.step(&options, 100 * MS, ""), Next::Receive { timeout: 20 * MS });
    run.note(Chunk::Timeout, 120 * MS);
    assert_eq!(run.step(&options, 120 * MS, ""), Next::Receive { timeout: 20 * MS });
    run.note(Chunk::Output, 130 * MS);
    run.note(Chunk::Timeout, 180 * MS);
    assert_eq!(run.step(&options, 180 * MS, ""), Next::Send);
    run.note(Chunk::Closed, 181 * MS);
    assert_eq!(run.step(&options, 181 * MS, ""), Next::Finish);
}

#[test]
fn captured_applications_are_told_of_all_colors() {
    let actions = configure_environment();
    assert_eq!(actions.len(), 2);
    for (action, expected) in actions
        .iter()
        .zip([("TERM", "xterm-truecolor"), ("COLORTERM", "truecolor")])
    {
        assert!(matches!(
            action,
            EnvAction::Assign { key, value } if (key.as_str(), value.as_str()) == expected
        ));
    }
}
