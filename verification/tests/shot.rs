use terminal_control::environment::EnvAction;
use terminal_control::frame::Color;
use terminal_control::shot::{
    append_color_response, check_launch, color_osc_end, configure_process_environment,
    configure_pty_environment, delivered, from_ansi, keep_last, keep_piped, pixels,
    provider_variable, respond_to_output, retain, take_color_queries, take_shot,
    terminal_input_closed, validate_geometry, Chunk, ColorMode, ColorQuery, Host, IoCause,
    LinefeedNormalizer, Next, Options, Phase, PipeEvent, PipeNext, PipeRun, Run, ShotError,
    Teardown, TeardownEvent, TeardownNext, WriteFailure, EIO, PROBE_BYTES,
};
use terminal_control::terminal_theme::TerminalTheme;

const MS: u128 = 1_000_000;
const OPENTUI_QUERY: &[u8] = b"\x1b]10;?\x07\x1b]11;?\x07";
const PALETTE_QUERY: &[u8] = b"\x1b]4;0;?\x07";

fn cause(kind: WriteFailure, os_code: Option<i32>) -> Vec<IoCause> {
    vec![IoCause { kind, os_code }]
}

fn some_frame() -> terminal_control::frame::Frame {
    terminal_control::replay::Replay::new(1, 2).frame()
}

#[test]
fn classifies_only_closed_terminal_input_errors_as_nonfatal() {
    assert!(terminal_input_closed(&cause(WriteFailure::BrokenPipe, None)));
    assert!(!terminal_input_closed(&cause(WriteFailure::Other, Some(13))));
    assert!(terminal_input_closed(&cause(WriteFailure::Other, Some(EIO))));
    assert_eq!(EIO, libc::EIO);
    assert!(!terminal_input_closed(&Vec::new()));
}

#[test]
fn normalizes_plain_line_feeds_for_pipe_output() {
    let mut normalizer = LinefeedNormalizer::default();
    assert_eq!(normalizer.normalize(b"one\n"), b"one\r\n");
    assert_eq!(normalizer.normalize(b"two\r"), b"two\r");
    assert_eq!(normalizer.normalize(b"\nthree"), b"\nthree");
}

#[test]
fn normalizing_in_chunks_is_normalizing_at_once() {
    let bytes = b"a\nb\r\nc\r\r\n\n";
    let mut whole = LinefeedNormalizer::default();
    let expected = whole.normalize(bytes);
    assert_eq!(expected, b"a\r\nb\r\nc\r\r\n\r\n");
    for split in 0..=bytes.len() {
        let mut parts = LinefeedNormalizer::default();
        let mut output = parts.normalize(&bytes[..split]);
        output.extend(parts.normalize(&bytes[split..]));
        assert_eq!(output, expected);
    }
}

#[test]
fn shot_responds_to_split_opentui_query_with_requested_geometry() {
    let mut host = Host::new(&Options {
        cols: 100,
        rows: 24,
        cell_width: 9,
        cell_height: 20,
        settle: 0,
        deadline: 0,
        max_bytes: 1,
        opentui_host: true,
        ..Options::default()
    });
    let mut written = host.respond(b"\x1b]10;?\x07");
    written.extend(host.respond(b"\x1b]11;?\x07"));
    written.extend(host.respond(b"\x1b]4;0;?\x07"));
    written.extend(host.respond(b"\x1b_Gi=31337,s=1,v=1,a=q,t=d,f=24;AAAA\x1b\\"));

    let output = String::from_utf8(written).unwrap();
    assert!(output.contains("\x1b[4;480;900t"));
    assert!(output.contains("\x1b]4;0;rgb:0000/0000/0000\x1b\\"));
    assert!(output.contains("\x1b_Gi=31337;EINVAL:graphics unavailable\x1b\\"));
}

#[test]
fn opentui_host_replies_with_the_inherited_theme() {
    let theme = TerminalTheme {
        foreground: Color { r: 1, g: 2, b: 3 },
        background: Color { r: 4, g: 5, b: 6 },
        ansi: std::array::from_fn(|index| Color {
            r: index as u8,
            g: 7,
            b: 8,
        }),
    };
    let mut host = Host::new_with_theme(
        &Options {
            opentui_host: true,
            ..Options::default()
        },
        theme,
    );

    let mut written = host.respond(OPENTUI_QUERY);
    written.extend(host.respond(PALETTE_QUERY));
    written.extend(host.respond(b"\x1b]4;1;?;15;?\x07\x1b]10;?\x07"));

    let output = String::from_utf8(written).unwrap();
    assert!(output.contains("\x1b]10;rgb:0101/0202/0303"));
    assert!(output.contains("\x1b]11;rgb:0404/0505/0606"));
    assert!(output.contains("\x1b]4;0;rgb:0000/0707/0808"));
    assert!(output.contains("\x1b]4;1;rgb:0101/0707/0808"));
    assert!(output.contains("\x1b]4;15;rgb:0f0f/0707/0808"));
    assert_eq!(output.matches("\x1b]10;rgb:0101/0202/0303").count(), 2);
}

#[test]
fn opentui_host_does_not_duplicate_ghostty_responses() {
    let mut host = Host::new(&Options {
        opentui_host: true,
        ..Options::default()
    });

    let response = respond_to_output(
        &mut host,
        b"\x1b]10;rgb:ffff/ffff/ffff\x1b\\".to_vec(),
        OPENTUI_QUERY,
    );
    let foreground_responses = response
        .windows(b"\x1b]10;".len())
        .filter(|window| *window == b"\x1b]10;")
        .count();

    assert_eq!(foreground_responses, 1);
    let mut off = Host::new(&Options::default());
    assert!(!off.is_enabled());
    assert_eq!(respond_to_output(&mut off, b"own".to_vec(), OPENTUI_QUERY), b"own");
}

#[test]
fn the_introduction_comes_once() {
    let mut host = Host::new(&Options {
        opentui_host: true,
        ..Options::default()
    });
    let introductions = |bytes: Vec<u8>| String::from_utf8(bytes).unwrap().matches("[?6c").count();
    assert_eq!(introductions(host.respond(OPENTUI_QUERY)), 1);
    assert_eq!(introductions(host.respond(OPENTUI_QUERY)), 0);
}

#[test]
fn rejects_zero_terminal_geometry_before_parsing() {
    assert!(from_ansi(Vec::new(), 0, 1, 1).is_err());
    assert!(from_ansi(Vec::new(), 1, 0, 1).is_err());
    assert!(from_ansi(Vec::new(), 1, 1, 1).is_ok());
    assert_eq!(
        validate_geometry(0, 1).unwrap_err().message(),
        "terminal dimensions must be greater than zero"
    );
    assert_eq!(
        from_ansi(b"abc".to_vec(), 1, 1, 2).unwrap_err().message(),
        "terminal input exceeds --max-bytes (2)"
    );
    let shot = from_ansi(b"abc".to_vec(), 1, 3, 3).unwrap().shot(some_frame());
    assert_eq!(shot.ansi, b"abc");
}

#[test]
fn retain_allows_appending_exactly_to_max_bytes() {
    let mut buffer = b"abc".to_vec();

    retain(&mut buffer, b"de", 5).unwrap();

    assert_eq!(buffer, b"abcde");
}

#[test]
fn retain_rejects_over_max_bytes_without_mutating_buffer() {
    let mut buffer = b"abc".to_vec();

    let err = retain(&mut buffer, b"def", 5).unwrap_err();

    assert_eq!(err.message(), "terminal output exceeds --max-bytes (5)");
    assert_eq!(buffer, b"abc");
}

#[test]
fn color_queries_are_taken_in_order() {
    let mut probe = b"x\x1b]10;?\x07y\x1b]4;1;?;300;?;2;?\x1b\\\x1b]11;?\x07\x1b]4;7".to_vec();
    assert_eq!(
        take_color_queries(&mut probe),
        [
            ColorQuery::Foreground,
            ColorQuery::Palette(1),
            ColorQuery::Palette(2),
            ColorQuery::Background
        ]
    );
    assert_eq!(probe, b"\x1b]4;7");
    probe.extend_from_slice(b";?\x07");
    assert_eq!(take_color_queries(&mut probe), [ColorQuery::Palette(7)]);
    assert!(probe.is_empty());
    assert_eq!(color_osc_end(b"10;?\x07", 0), Some((4, 1)));
    assert_eq!(color_osc_end(b"10;?\x1b\\", 0), Some((4, 2)));
    assert_eq!(color_osc_end(b"10;?", 0), None);
}

#[test]
fn colors_are_answered_with_sixteen_bits() {
    let mut response = b"<".to_vec();
    append_color_response(&mut response, "4;3", Color { r: 0xab, g: 0, b: 0x1f });
    assert_eq!(response, b"<\x1b]4;3;rgb:abab/0000/1f1f\x1b\\");
}

#[test]
fn probes_and_pixels_are_bounded() {
    let mut bytes = (0..100u8).collect::<Vec<_>>();
    keep_last(&mut bytes, PROBE_BYTES);
    assert_eq!(bytes, (36..100u8).collect::<Vec<_>>());
    keep_last(&mut bytes, 1000);
    assert_eq!(bytes.len(), 64);
    assert_eq!(pixels(65535, 65535), 4294836225);
    assert_eq!(delivered(b"x".to_vec(), true), b"x");
    assert!(delivered(b"x".to_vec(), false).is_empty());
}

fn assigned(actions: &[EnvAction], wanted: &str) -> Option<String> {
    let mut found = None;
    for action in actions {
        match action {
            EnvAction::Assign { key, value } if key == wanted => found = Some(value.clone()),
            EnvAction::Remove { key } if key == wanted => found = None,
            _ => {}
        }
    }
    found
}

#[test]
fn environments_follow_the_color_mode() {
    let never = configure_pty_environment(&Options {
        color: ColorMode::Never,
        ..Options::default()
    });
    assert_eq!(assigned(&never, "NO_COLOR").as_deref(), Some("1"));
    assert_eq!(assigned(&never, "FORCE_COLOR").as_deref(), Some("0"));
    let always = configure_process_environment(&Options {
        color: ColorMode::Always,
        ..Options::default()
    });
    assert_eq!(assigned(&always, "NO_COLOR"), None);
    assert!(assigned(&always, "FORCE_COLOR").is_some());
    let mut options = Options {
        color: ColorMode::Never,
        ..Options::default()
    };
    options.env.set("NO_COLOR".to_owned(), "mine".to_owned());
    assert_eq!(
        assigned(&configure_pty_environment(&options), "NO_COLOR").as_deref(),
        Some("mine")
    );
}

#[test]
fn observations_settle() {
    let options = Options {
        settle: 100 * MS,
        deadline: 1000 * MS,
        ..Options::default()
    };
    let mut run = Run::start(&options);
    assert_eq!(run.step(&options, 0, ""), Next::Receive { timeout: 20 * MS });
    run.note(Chunk::Output, 10 * MS);
    assert_eq!(run.step(&options, 10 * MS, "a"), Next::Receive { timeout: 20 * MS });
    run.note(Chunk::Timeout, 110 * MS);
    assert_eq!(run.step(&options, 110 * MS, "a"), Next::Finish);
    assert_eq!(run.phase, Phase::Done);

    let mut silent = Run::start(&options);
    assert_eq!(silent.step(&options, 0, ""), Next::Receive { timeout: 20 * MS });
    silent.note(Chunk::Timeout, 990 * MS);
    assert_eq!(silent.step(&options, 990 * MS, ""), Next::Receive { timeout: 10 * MS });
    silent.note(Chunk::Timeout, 1000 * MS);
    assert_eq!(silent.step(&options, 1000 * MS, ""), Next::Finish);
}

#[test]
fn observations_wait_for_their_text_and_then_send() {
    let options = Options {
        settle: 100 * MS,
        deadline: 1000 * MS,
        input: b"x".to_vec(),
        wait_for: Some("ready".to_owned()),
        ..Options::default()
    };
    let mut run = Run::start(&options);
    assert_eq!(run.step(&options, 0, ""), Next::Receive { timeout: 20 * MS });
    assert_eq!(run.phase, Phase::Pattern);
    run.note(Chunk::Output, 5 * MS);
    assert_eq!(run.step(&options, 5 * MS, "ready>"), Next::Send);
    assert_eq!(run.phase, Phase::SettlingAfterInput);
    run.note(Chunk::Closed, 6 * MS);
    assert_eq!(run.step(&options, 6 * MS, ""), Next::Finish);

    let mut closed = Run::start(&options);
    closed.note(Chunk::Closed, 1 * MS);
    assert_eq!(closed.step(&options, 1 * MS, "rea"), Next::PatternMissing);
    assert_eq!(
        take_shot(&options, some_frame(), "rea", Vec::new()).unwrap_err().message(),
        "visible terminal did not include --wait-for \"ready\" before command ended or deadline elapsed"
    );
    assert!(take_shot(&options, some_frame(), "ready", Vec::new()).is_ok());
}

#[test]
fn piped_observations_end_with_both_streams_and_the_command() {
    let options = Options {
        deadline: 50 * MS,
        ..Options::default()
    };
    let mut run = PipeRun::start(&options);
    assert_eq!(run.step(0), PipeNext::Receive { timeout: 20 * MS });
    assert_eq!(run.step(45 * MS), PipeNext::Receive { timeout: 5 * MS });
    assert_eq!(run.step(50 * MS), PipeNext::Finish);
    run.note(PipeEvent::StreamClosed, true);
    assert_eq!(run.step(1), PipeNext::Receive { timeout: 20 * MS });
    run.note(PipeEvent::StreamClosed, false);
    assert_eq!(run.step(1), PipeNext::Finish);

    let mut normalizer = LinefeedNormalizer::default();
    let mut ansi = Vec::new();
    assert_eq!(keep_piped(&mut normalizer, &mut ansi, b"a\n", 3).unwrap(), b"a\r\n");
    assert!(keep_piped(&mut normalizer, &mut ansi, b"b", 3).is_err());
    assert_eq!(ansi, b"a\r\n");
}

#[test]
fn launches_need_a_command() {
    assert!(matches!(
        check_launch(&Vec::new(), &Options::default()),
        Err(ShotError::NoCommand)
    ));
    assert!(check_launch(&vec!["sh".to_owned()], &Options::default()).is_ok());
}

#[test]
fn only_opentui_host_commands_receive_the_application_semantic_socket() {
    let plain = Options::default();
    assert_eq!(provider_variable(&plain), None);
    let hosted = Options { opentui_host: true, ..plain };
    assert_eq!(provider_variable(&hosted), Some("TERMCTRL_SEMANTIC_SOCKET"));
}

#[test]
fn killed_applications_get_a_second_to_end() {
    let teardown = Teardown::begin(500 * MS);
    assert_eq!(teardown.step(TeardownEvent::Killed, 500 * MS), TeardownNext::Look);
    assert_eq!(teardown.step(TeardownEvent::Running, 500 * MS), TeardownNext::Rest(10 * MS));
    assert_eq!(teardown.step(TeardownEvent::Rested, 1499 * MS), TeardownNext::Look);
    assert_eq!(teardown.step(TeardownEvent::Rested, 1500 * MS), TeardownNext::Done);
    assert_eq!(teardown.step(TeardownEvent::Exited, 500 * MS), TeardownNext::Done);
    assert_eq!(Teardown::begin(u128::MAX).deadline, u128::MAX);
}

#[test]
fn options_are_copied_whole() {
    let mut options = Options {
        cols: 7,
        input: b"in".to_vec(),
        wait_for: Some("ready".to_owned()),
        color: ColorMode::Never,
        inherit_env: false,
        ..Options::default()
    };
    options.env.set("KEY".to_owned(), "value".to_owned());
    let copy = options.clone();
    assert_eq!((copy.cols, copy.rows, copy.inherit_env), (7, 24, false));
    assert_eq!(copy.input, b"in");
    assert_eq!(copy.wait_for.as_deref(), Some("ready"));
    assert_eq!(copy.color, ColorMode::Never);
    assert_eq!(copy.env.get("KEY").map(String::as_str), Some("value"));
    assert_eq!(
        configure_pty_environment(&copy).len(),
        configure_pty_environment(&options).len()
    );
}
