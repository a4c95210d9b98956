use terminal_control::capture::ansi;
use terminal_control::cli::{
    capture_timing, check_show, current, extended_path, join_texts, list, list_line, marker_line,
    needs_newline, pane_line, parse_grid, plain_content, printable_text, prune, prune_summary, read_source, resolve_current_pane,
    restart_session, run_name, send, status_lines, stdin_burst, validate_terminal_size,
    validate_workspace_size, window_line, write_outputs, CaptureTiming, CliError, Current,
    OutputFile, RestartArgs, SendSource, ShotFormat, Source, SourceArgs,
};
use terminal_control::input::{input_bytes, input_event, session_input};
use terminal_control::session::{
    NamedSessionStatus, SessionLaunch, SessionState, SessionStatus, UnavailableReason,
};
use terminal_control::recording::Marker;
use terminal_control::shot::{ColorMode, Shot};
use terminal_control::workspace::{ActivityKind, PaneStatus, WindowStatus};

fn source() -> SourceArgs {
    SourceArgs {
        name: None,
        pane: None,
        window: None,
        cols: None,
        rows: None,
        pipe: false,
        input: None,
        recording: None,
        at_marker: None,
        at_ms: None,
        color: None,
        settle_ms: None,
        deadline_ms: None,
        initial_delay_ms: None,
        wait_for: None,
        max_bytes: None,
        cwd: None,
        opentui_host: false,
        send: Vec::new(),
        command: Vec::new(),
    }
}

fn texts(items: &[&str]) -> Vec<String> {
    items.iter().map(|item| item.to_string()).collect()
}

fn launch() -> SessionLaunch {
    SessionLaunch {
        command: texts(&["nvim", "README.md"]),
        cwd: "/tmp/project".to_owned(),
        record: None,
        cols: 80,
        rows: 24,
        cell_width: 8,
        cell_height: 16,
        max_bytes: 1024,
        opentui_host: false,
        color: ColorMode::Never,
    }
}

fn status(state: SessionState) -> SessionStatus {
    SessionStatus {
        state,
        exit: None,
        cols: 120,
        rows: 40,
        cell_width: 9,
        cell_height: 18,
        idle_for_ms: None,
        has_visible_content: true,
        recording: true,
        logs_truncated: false,
        launch: launch(),
    }
}

fn entry(
    name: &str,
    state: Option<SessionState>,
    unavailable: Option<UnavailableReason>,
) -> NamedSessionStatus {
    NamedSessionStatus {
        name: name.to_owned(),
        status: state.map(status),
        error: None,
        unavailable,
    }
}

#[test]
fn preserves_ordered_input_events() {
    assert_eq!(
        input_bytes(&[
            "ctrl-p".to_owned(),
            "text:model".to_owned(),
            "enter".to_owned()
        ])
        .unwrap(),
        b"\x10model\r"
    );
}

#[test]
fn rejects_unsupported_input_events() {
    assert!(input_bytes(&["space".to_owned()]).is_err());
}

#[test]
fn encodes_control_and_navigation_input_events() {
    assert_eq!(
        input_bytes(&[
            "ctrl-c".to_owned(),
            "shift-tab".to_owned(),
            "delete".to_owned()
        ])
        .unwrap(),
        b"\x03\x1b[Z\x1b[3~"
    );
}

#[test]
fn input_events_cover_every_named_key() {
    let cases: [(&str, &[u8]); 18] = [
        ("enter", b"\r"),
        ("escape", b"\x1b"),
        ("esc", b"\x1b"),
        ("up", b"\x1b[A"),
        ("down", b"\x1b[B"),
        ("left", b"\x1b[D"),
        ("right", b"\x1b[C"),
        ("tab", b"\t"),
        ("shift-tab", b"\x1b[Z"),
        ("backspace", b"\x7f"),
        ("delete", b"\x1b[3~"),
        ("home", b"\x1b[H"),
        ("end", b"\x1b[F"),
        ("page-up", b"\x1b[5~"),
        ("page-down", b"\x1b[6~"),
        ("ctrl-A", b"\x01"),
        ("ctrl:z", b"\x1a"),
        ("text:", b""),
    ];
    for (event, bytes) in cases {
        assert_eq!(input_event(event).unwrap(), bytes, "{event}");
    }
    for event in ["ctrl-1", "ctrl-ab", "ctrl-", "ctrl-\u{e9}", "", "Enter"] {
        assert!(input_event(event).is_err(), "{event}");
    }
    assert_eq!(
        input_event("text:\u{754c}").unwrap(),
        "\u{754c}".as_bytes().to_vec()
    );
}

#[test]
fn unsupported_events_are_named_in_the_error() {
    let error = input_bytes(&texts(&["enter", "space", "bogus"])).unwrap_err();
    assert_eq!(error.event, "space");
    assert_eq!(
        error.message(),
        "unsupported input event \"space\"; use text:<value>, ctrl-a through ctrl-z, enter, escape, arrows, tab, shift-tab, backspace, delete, home, end, page-up, or page-down"
    );
}

#[test]
fn paced_session_input_splits_text_without_splitting_keys() {
    assert_eq!(
        session_input(&["text:hi".to_owned(), "enter".to_owned()], true).unwrap(),
        vec![b"h".to_vec(), b"i".to_vec(), b"\r".to_vec()]
    );
}

#[test]
fn pacing_keeps_the_bytes_that_are_sent() {
    let events = texts(&["text:a\u{754c}b", "up", "ctrl-c", "text:"]);
    let paced = session_input(&events, true).unwrap();
    let at_once = session_input(&events, false).unwrap();
    assert_eq!(paced.len(), 5);
    assert_eq!(at_once.len(), 1);
    assert_eq!(paced.concat(), at_once[0]);
}

#[test]
fn named_screen_reads_are_immediate_without_explicit_zero_flags() {
    let mut named = source();
    named.name = Some("demo".to_owned());
    assert_eq!(
        capture_timing(&named),
        CaptureTiming { settle_ms: 0, deadline_ms: 0 }
    );

    let mut command = source();
    command.command = texts(&["app"]);
    assert_eq!(
        capture_timing(&command),
        CaptureTiming { settle_ms: 250, deadline_ms: 5000 }
    );

    named.settle_ms = Some(25);
    named.deadline_ms = Some(500);
    assert_eq!(
        capture_timing(&named),
        CaptureTiming { settle_ms: 25, deadline_ms: 500 }
    );
}

#[test]
fn current_context_uses_inherited_pane_only_for_the_same_workspace() {
    assert_eq!(
        resolve_current_pane(None, "workspace", Some("workspace"), Some("7")).unwrap(),
        Some(7)
    );
    assert_eq!(
        resolve_current_pane(None, "other", Some("workspace"), Some("7")).unwrap(),
        None
    );
    assert_eq!(
        resolve_current_pane(Some(3), "other", Some("workspace"), Some("7")).unwrap(),
        Some(3)
    );
    assert!(resolve_current_pane(None, "workspace", Some("workspace"), Some("bad")).is_err());
}

#[test]
fn current_pane_must_fit_its_number() {
    assert_eq!(
        resolve_current_pane(None, "w", Some("w"), Some("4294967295")).unwrap(),
        Some(u32::MAX)
    );
    let error = resolve_current_pane(None, "w", Some("w"), Some("4294967296")).unwrap_err();
    assert_eq!(error.message(), "invalid TERMCTRL_PANE_ID \"4294967296\"");
    assert_eq!(resolve_current_pane(None, "w", Some("w"), None).unwrap(), None);
}

#[test]
fn current_tells_a_session_or_a_workspace() {
    assert!(matches!(
        current(None, None, None, Some("demo".to_owned()), None),
        Ok(Current::Session(name)) if name == "demo"
    ));
    assert!(matches!(
        current(None, None, None, None, None),
        Err(CliError::NotInSession)
    ));
    assert!(matches!(
        current(None, Some(1), None, Some("demo".to_owned()), None),
        Err(CliError::PaneWithoutWorkspace)
    ));
    assert!(matches!(
        current(None, None, Some("w".to_owned()), None, Some("9".to_owned())),
        Ok(Current::Workspace { name, pane: Some(9) }) if name == "w"
    ));
    assert!(matches!(
        current(Some("v".to_owned()), None, Some("w".to_owned()), None, Some("9".to_owned())),
        Ok(Current::Workspace { name, pane: None }) if name == "v"
    ));
}

#[test]
fn show_rejects_png_before_starting_a_source() {
    assert_eq!(
        check_show(ShotFormat::Png).unwrap_err().message(),
        "show does not support PNG output; use save --format png --out PATH"
    );
    assert!(check_show(ShotFormat::Svg).is_ok());
}

#[test]
fn rejects_settling_options_for_pipe_reads() {
    let mut args = source();
    args.pipe = true;
    args.settle_ms = Some(100);
    args.command = texts(&["true"]);
    assert!(matches!(read_source(&args, 9, 18), Err(CliError::PipeOptions)));
}

#[test]
fn rejects_zero_terminal_dimensions() {
    assert!(validate_terminal_size(0, 24).is_err());
    assert!(validate_terminal_size(80, 0).is_err());
    assert!(validate_workspace_size(80, 1).is_err());
    assert!(validate_workspace_size(80, 2).is_ok());
}

#[test]
fn sources_are_read_from_what_the_command_line_says() {
    let mut recording = source();
    recording.recording = Some("demo.termctrl".to_owned());
    recording.at_ms = Some(5);
    assert!(matches!(
        read_source(&recording, 9, 18),
        Ok(Source::Recording { at_ms: Some(5), at_marker: None })
    ));
    recording.at_ms = None;
    recording.at_marker = Some("done".to_owned());
    assert!(matches!(
        read_source(&recording, 9, 18),
        Ok(Source::Recording { at_ms: None, at_marker: Some(name) }) if name == "done"
    ));
    recording.cols = Some(80);
    assert!(matches!(
        read_source(&recording, 9, 18),
        Err(CliError::RecordingOptions)
    ));

    let mut moment = source();
    moment.at_ms = Some(5);
    assert!(matches!(
        read_source(&moment, 9, 18),
        Err(CliError::MomentWithoutRecording)
    ));

    let mut named = source();
    named.name = Some("demo".to_owned());
    assert!(matches!(
        read_source(&named, 9, 18),
        Ok(Source::Session {
            timing: CaptureTiming { settle_ms: 0, deadline_ms: 0 },
            window: None,
            pane: None
        })
    ));
    named.window = Some("logs".to_owned());
    named.pane = Some(3);
    assert!(matches!(
        read_source(&named, 9, 18),
        Ok(Source::Session { window: Some(window), pane: Some(3), .. }) if window == "logs"
    ));
    named.max_bytes = Some(1);
    assert!(matches!(read_source(&named, 9, 18), Err(CliError::NameOptions)));
    named.command = texts(&["app"]);
    assert!(matches!(read_source(&named, 9, 18), Err(CliError::NameConflict)));

    let mut input = source();
    input.input = Some("-".to_owned());
    input.max_bytes = Some(10);
    assert!(matches!(
        read_source(&input, 9, 18),
        Ok(Source::Input { cols: 80, rows: 24, max_bytes: 10, read_limit: 11 })
    ));
    input.settle_ms = Some(1);
    assert!(matches!(read_source(&input, 9, 18), Err(CliError::InputOptions)));
    input.pipe = true;
    assert!(matches!(read_source(&input, 9, 18), Err(CliError::InputConflict)));

    assert!(matches!(read_source(&source(), 9, 18), Err(CliError::NoSource)));
    let mut empty = source();
    empty.rows = Some(0);
    empty.command = texts(&["app"]);
    assert!(matches!(read_source(&empty, 9, 18), Err(CliError::ZeroTerminal)));
}

#[test]
fn command_sources_carry_their_options() {
    let mut args = source();
    args.command = texts(&["app"]);
    args.send = texts(&["text:hi", "enter"]);
    args.cols = Some(100);
    args.initial_delay_ms = Some(3);
    args.wait_for = Some("ready".to_owned());
    args.opentui_host = true;
    match read_source(&args, 10, 20).unwrap() {
        Source::Command(options) => {
            assert_eq!((options.cols, options.rows), (100, 24));
            assert_eq!((options.cell_width, options.cell_height), (10, 20));
            assert_eq!(options.settle, 250_000_000);
            assert_eq!(options.deadline, 5_000_000_000);
            assert_eq!(options.initial_delay, 3_000_000);
            assert_eq!(options.input, b"hi\r");
            assert_eq!(options.wait_for.as_deref(), Some("ready"));
            assert_eq!(options.max_bytes, 16 * 1024 * 1024);
            assert!(options.opentui_host);
            assert_eq!(options.color, ColorMode::Auto);
        }
        other => panic!("unexpected source {other:?}"),
    }
    args.send = texts(&["space"]);
    assert!(matches!(
        read_source(&args, 10, 20),
        Err(CliError::Event(error)) if error.event == "space"
    ));

    let mut pipe = source();
    pipe.pipe = true;
    pipe.command = texts(&["app"]);
    assert!(matches!(
        read_source(&pipe, 9, 18),
        Ok(Source::Pipe(options)) if options.color == ColorMode::Always
    ));
}

#[test]
fn grids_have_one_or_two_columns_and_rows() {
    for (value, grid) in [("1x1", (1, 1)), ("2x1", (2, 1)), ("1x2", (1, 2)), ("2x2", (2, 2))] {
        assert_eq!(parse_grid(value).unwrap(), grid);
    }
    assert_eq!(
        parse_grid("2").unwrap_err().message(),
        "grid must be 1x1, 2x1, 1x2, or 2x2"
    );
    assert_eq!(
        parse_grid("ax1").unwrap_err().message(),
        "grid columns must be 1 or 2"
    );
    assert_eq!(
        parse_grid("1x1x1").unwrap_err().message(),
        "grid rows must be 1 or 2"
    );
    assert_eq!(
        parse_grid("3x1").unwrap_err().message(),
        "grid must be 1x1, 2x1, 1x2, or 2x2"
    );
    assert!(matches!(parse_grid("65536x1"), Err(CliError::GridColumns)));
    for value in ["+1x2", "2x+1", "02x01", "1x12", "0x1"] {
        assert!(matches!(parse_grid(value), Err(CliError::Grid)));
    }
    assert!(matches!(parse_grid("1x"), Err(CliError::GridRows)));
    assert!(matches!(parse_grid("x1"), Err(CliError::GridColumns)));
}

#[test]
fn restarting_keeps_what_is_not_said() {
    let args = RestartArgs {
        cols: Some(100),
        rows: None,
        cell_width: None,
        cell_height: None,
        max_bytes: None,
        cwd: None,
        record: None,
        color: None,
        opentui_host: true,
        command: Vec::new(),
    };
    let restart = restart_session(launch(), args).unwrap();
    assert_eq!(restart.command, ["nvim", "README.md"]);
    assert_eq!(restart.cwd, b"/tmp/project");
    assert_eq!((restart.options.cols, restart.options.rows), (100, 24));
    assert_eq!(restart.options.max_bytes, 1024);
    assert_eq!(restart.options.color, ColorMode::Never);
    assert!(restart.options.opentui_host);

    let moved = RestartArgs {
        cols: None,
        rows: None,
        cell_width: None,
        cell_height: None,
        max_bytes: None,
        cwd: Some(b"/tmp/\xff".to_vec()),
        record: Some(b"/tmp/\xfe.termctrl".to_vec()),
        color: None,
        opentui_host: false,
        command: texts(&["sh"]),
    };
    let restart = restart_session(launch(), moved).unwrap();
    assert_eq!(restart.command, ["sh"]);
    assert_eq!(restart.cwd, b"/tmp/\xff");
    assert_eq!(restart.record.as_deref(), Some(&b"/tmp/\xfe.termctrl"[..]));

    let empty = RestartArgs {
        cols: Some(0),
        rows: None,
        cell_width: None,
        cell_height: None,
        max_bytes: None,
        cwd: None,
        record: None,
        color: None,
        opentui_host: false,
        command: Vec::new(),
    };
    assert!(matches!(
        restart_session(launch(), empty),
        Err(CliError::ZeroTerminal)
    ));
}

#[test]
fn standard_input_is_one_short_burst() {
    assert!(matches!(send(true, 1, &[]), Err(CliError::PacedStdin)));
    assert!(matches!(
        send(true, 0, &[]),
        Ok(SendSource::Stdin { read_limit: 1048577 })
    ));
    assert!(matches!(send(false, 0, &[]), Err(CliError::NoInput)));
    assert!(matches!(
        send(false, 5, &texts(&["text:ab"])),
        Ok(SendSource::Bursts(bursts)) if bursts == [b"a".to_vec(), b"b".to_vec()]
    ));
    assert_eq!(stdin_burst(b"abc".to_vec()).unwrap(), [b"abc".to_vec()]);
    assert_eq!(
        stdin_burst(vec![0; 1048577]).unwrap_err().message(),
        "session input exceeds 1 MiB"
    );
}

#[test]
fn only_running_sessions_are_listed_unless_all_are_asked_for() {
    let entries = || {
        vec![
            entry("a", Some(SessionState::Running), None),
            entry("b", Some(SessionState::Exited), None),
            entry("c", None, Some(UnavailableReason::Stale)),
            entry("d", None, Some(UnavailableReason::IncompatibleProtocol)),
        ]
    };
    let names = |entries: Vec<NamedSessionStatus>| {
        entries.into_iter().map(|entry| entry.name).collect::<Vec<_>>()
    };
    assert_eq!(names(list(entries(), false)), ["a"]);
    assert_eq!(names(list(entries(), true)), ["a", "b", "c", "d"]);
    assert_eq!(names(prune(entries())), ["b", "c"]);
    let lines = entries().iter().map(list_line).collect::<Vec<_>>();
    assert_eq!(lines[0], "a\trunning\t120x40\trecording");
    assert_eq!(lines[2], "c\tstale\t-\t-");
    assert_eq!(lines[3], "d\tincompatible\t-\t-");
    assert_eq!(prune_summary(true, 2), "would remove 2");
    assert_eq!(prune_summary(false, 10), "removed 10");
}

#[test]
fn panes_and_windows_are_printed_on_one_line() {
    let pane = PaneStatus {
        id: 7,
        active: true,
        visible: true,
        state: SessionState::Running,
        x: 1,
        y: 2,
        cols: 40,
        rows: 12,
        title: "ed\u{7}it\nor".to_owned(),
        command: texts(&["nvim", "x"]),
        cwd: "/".to_owned(),
    };
    assert_eq!(pane_line(&pane), "7\tactive\t1,2\t40x12\teditor\tnvim x");
    let window = WindowStatus {
        index: 0,
        name: "main".to_owned(),
        active: false,
        pane_count: 2,
        active_pane: None,
        zoomed_pane: None,
        activity: true,
        activity_kinds: vec![ActivityKind::Output, ActivityKind::Bell],
        cols: 80,
        rows: 24,
    };
    assert_eq!(window_line(&window), "0\t\tmain\t2 panes\t80x24\toutput,bell");
    let marker = Marker { at_ms: 1204, name: "after answer".to_owned() };
    assert_eq!(marker_line(&marker), "1204\tafter answer");
    assert_eq!(printable_text("a\u{9b}b\u{a0}"), "ab\u{a0}");
    assert_eq!(join_texts(&texts(&["a", "b", "c"]), ", "), "a, b, c");
    assert_eq!(join_texts(&[], ", "), "");
}

#[test]
fn status_is_printed_line_by_line() {
    assert_eq!(
        status_lines("demo", &status(SessionState::Exited)),
        "demo exited\ncwd: /tmp/project\ncommand: nvim README.md\nviewport: 120x40\nrecording: none"
    );
}

#[test]
fn files_get_the_extension_of_their_format() {
    for path in [
        "demo", "demo.txt", "a.b/demo", "a/demo.tar.gz", ".demo", "a/.demo", "demo.", "demo/", "demo/.",
        "..", "a/..", "/", ".", "./", "", "/demo", "a//demo.x//", "d\u{e9}mo.\u{e9}",
    ] {
        assert_eq!(
            extended_path(path.as_bytes(), "png"),
            std::path::Path::new(path).with_extension("png").to_str().unwrap().as_bytes()
        );
    }
    assert_eq!(extended_path(b"a/demo.tar.gz", "png"), b"a/demo.tar.png");
    assert_eq!(extended_path(b"\xff.\xff", "svg"), b"\xff.svg");
}

#[test]
fn every_asked_format_is_written_once() {
    let captured = ansi(b"\x1b[1ma\r\nb".to_vec(), 2, 4, 64).unwrap();
    let captured = Shot { frame: captured.frame, ansi: captured.ansi };
    let asked = [ShotFormat::Ansi, ShotFormat::Svg, ShotFormat::Txt, ShotFormat::Ansi];
    let file = |format: ShotFormat, path: &[u8], content: Option<&[u8]>| OutputFile {
        format,
        path: path.to_vec(),
        content: content.map(|content| content.to_vec()),
    };
    assert_eq!(
        write_outputs(&captured, b"captures/demo.v1", &asked),
        [
            file(ShotFormat::Svg, b"captures/demo.svg", None),
            file(ShotFormat::Txt, b"captures/demo.txt", Some(b"a\nb")),
            file(ShotFormat::Ansi, b"captures/demo.ansi", Some(b"\x1b[1ma\r\nb")),
        ]
    );
    assert_eq!(plain_content(&captured, ShotFormat::Json), None);
    assert_eq!(ShotFormat::Json.extension(), "json");
    assert!(needs_newline(false, b"text"));
    assert!(needs_newline(false, b""));
    assert!(!needs_newline(false, b"text\n"));
    assert!(!needs_newline(true, b"text"));
}

#[test]
fn workspaces_are_named_after_their_command() {
    assert_eq!(run_name(None, &[]).unwrap(), "workspace");
    assert_eq!(run_name(None, &texts(&["/usr/bin/nvim", "file.txt"])).unwrap(), "nvim");
    assert_eq!(run_name(Some("editor".to_owned()), &texts(&["nvim"])).unwrap(), "editor");
    assert!(run_name(None, &texts(&["/usr/bin/my editor"])).is_err());
}
