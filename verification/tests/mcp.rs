use terminal_control::mcp::{
    default_resize_cells, default_timeout_ms, encode_input, key_bytes, pane_list, resized_message,
    sent_message, session_details, session_list, stopped_message, window_list, workspace_context,
    Input, InteractRequest, Key, ScreenRequest, SendRequest, TerminalControl, ToolError,
};
use terminal_control::session::{
    self, NamedSessionStatus, ProcessExit, Request, SessionError, SessionLaunch, SessionState,
    SessionStatus, UnavailableReason,
};
use terminal_control::shot::ColorMode;
use terminal_control::workspace::{
    ActivityKind, PaneStatus, TabPosition, WindowStatus, WorkspaceContext,
};

fn editor_status() -> SessionStatus {
    SessionStatus {
        state: SessionState::Exited,
        exit: Some(ProcessExit {
            code: 7,
            signal: Some("SIGTERM".to_owned()),
            success: false,
        }),
        cols: 120,
        rows: 40,
        cell_width: 9,
        cell_height: 18,
        idle_for_ms: Some(250),
        has_visible_content: true,
        recording: true,
        logs_truncated: true,
        launch: SessionLaunch {
            command: vec!["nvim".to_owned(), "README.md".to_owned()],
            cwd: "/tmp/project".to_owned(),
            record: Some("/tmp/editor.termctrl".to_owned()),
            cols: 80,
            rows: 24,
            cell_width: 8,
            cell_height: 16,
            max_bytes: 1024,
            opentui_host: false,
            color: ColorMode::Auto,
        },
    }
}

#[test]
fn encodes_typed_input_without_shell_escaping() {
    let input = encode_input(vec![
        Input::Text {
            text: ":edit src/App.tsx".to_owned(),
        },
        Input::Key { key: Key::Enter },
        Input::Control { letter: 'c' },
    ])
    .unwrap();

    assert_eq!(
        input,
        [b":edit src/App.tsx".to_vec(), b"\r".to_vec(), vec![3]]
    );
}

#[test]
fn control_input_is_one_letter() {
    let error = encode_input(vec![
        Input::Bytes { bytes: vec![0, 255] },
        Input::Control { letter: '1' },
    ])
    .unwrap_err();
    assert_eq!(error.message(), "control input must be one ASCII letter");
    assert_eq!(
        encode_input(vec![Input::Control { letter: 'Z' }, Input::Bytes { bytes: vec![0, 255] }])
            .unwrap(),
        [vec![26], vec![0, 255]]
    );
}

#[test]
fn typed_keys_send_what_named_events_send() {
    let keys = [
        (Key::Enter, "enter"),
        (Key::Escape, "escape"),
        (Key::ArrowUp, "up"),
        (Key::ArrowDown, "down"),
        (Key::ArrowLeft, "left"),
        (Key::ArrowRight, "right"),
        (Key::Tab, "tab"),
        (Key::ShiftTab, "shift-tab"),
        (Key::Backspace, "backspace"),
        (Key::Delete, "delete"),
        (Key::Home, "home"),
        (Key::End, "end"),
        (Key::PageUp, "page-up"),
        (Key::PageDown, "page-down"),
    ];
    for (key, event) in keys {
        assert_eq!(
            key_bytes(key),
            terminal_control::input::input_event(event).unwrap()
        );
    }
}

#[test]
fn screen_and_interact_requests_use_explicit_targets() {
    assert!(session::terminal_target(Some("tests".to_owned()), Some(3)).is_err());
    let tools = TerminalControl;
    let exchange = tools
        .get_screen(ScreenRequest {
            name: "editor".to_owned(),
            window: None,
            pane: Some(3),
        })
        .unwrap();
    assert!(matches!(
        exchange.operation,
        Request::Show { settle_ms: 0, deadline_ms: 0, pane: Some(3) }
    ));

    let interaction = tools
        .interact(InteractRequest {
            name: "editor".to_owned(),
            window: Some("tests".to_owned()),
            pane: None,
            input: Vec::new(),
            pace_ms: 0,
            wait_for: Some("ok".to_owned()),
            timeout_ms: default_timeout_ms(),
        })
        .unwrap();
    assert!(matches!(
        interaction.send.operation,
        Request::SendWindow { ref name, ref input, pace_ms: 0 } if name == "tests" && input.is_empty()
    ));
    assert!(matches!(
        interaction.wait.unwrap().operation,
        Request::WaitWindow { ref name, ref text, timeout_ms: 5000 } if name == "tests" && text == "ok"
    ));
    assert!(matches!(
        interaction.show.operation,
        Request::ShowWindow { ref name, settle_ms: 0, deadline_ms: 0 } if name == "tests"
    ));
}

#[test]
fn tools_refuse_conflicts_before_input_and_input_before_names() {
    let tools = TerminalControl;
    let request = |name: &str, window: Option<&str>, pane: Option<u32>, letter: char| SendRequest {
        name: name.to_owned(),
        window: window.map(str::to_owned),
        pane,
        input: vec![Input::Control { letter }],
        pace_ms: 1,
    };
    assert!(matches!(
        tools.send_input(request("a b", Some("w"), Some(1), '1')),
        Err(ToolError::Session(SessionError::TargetConflict))
    ));
    assert!(matches!(
        tools.send_input(request("a b", Some("w"), None, '1')),
        Err(ToolError::ControlLetter)
    ));
    assert!(matches!(
        tools.send_input(request("a b", Some("w"), None, 'x')),
        Err(ToolError::Session(SessionError::InvalidName))
    ));
    let exchange = tools.send_input(request("a", None, Some(2), 'x')).unwrap();
    assert!(matches!(
        exchange.operation,
        Request::Send { ref input, pace_ms: 1, pane: Some(2) } if input == &[vec![24]]
    ));
}

#[test]
fn maps_full_session_status_to_the_mcp_contract() {
    let details = session_details("editor".to_owned(), editor_status());

    assert_eq!(details.name, "editor");
    assert_eq!(details.state, "exited");
    let exit = details.exit.unwrap();
    assert_eq!(
        (exit.code, exit.signal.as_deref(), exit.success),
        (7, Some("SIGTERM"), false)
    );
    assert_eq!(details.command, ["nvim", "README.md"]);
    assert_eq!(details.cwd, "/tmp/project");
    assert_eq!((details.cols, details.rows), (120, 40));
    assert_eq!((details.cell_width, details.cell_height), (9, 18));
    assert_eq!(details.idle_for_ms, Some(250));
    assert!(details.has_visible_content);
    assert!(details.recording);
    assert_eq!(details.recording_path.as_deref(), Some("/tmp/editor.termctrl"));
    assert!(details.logs_truncated);
}

#[test]
fn agents_are_told_of_running_sessions_only() {
    let mut running = editor_status();
    running.state = SessionState::Running;
    let summaries = session_list(vec![
        NamedSessionStatus {
            name: "a".to_owned(),
            status: Some(editor_status()),
            error: None,
            unavailable: None,
        },
        NamedSessionStatus {
            name: "b".to_owned(),
            status: Some(running),
            error: None,
            unavailable: None,
        },
        NamedSessionStatus {
            name: "c".to_owned(),
            status: None,
            error: Some("gone".to_owned()),
            unavailable: Some(UnavailableReason::Stale),
        },
    ]);
    assert_eq!(summaries.len(), 1);
    assert_eq!(summaries[0].name, "b");
    assert_eq!(summaries[0].state.as_deref(), Some("running"));
    assert_eq!(summaries[0].cwd.as_deref(), Some("/tmp/project"));
    assert_eq!(summaries[0].cols, Some(120));
    assert_eq!(summaries[0].unavailable, None);
    let stale = terminal_control::mcp::session_summary(NamedSessionStatus {
        name: "c".to_owned(),
        status: None,
        error: Some("gone".to_owned()),
        unavailable: Some(UnavailableReason::IncompatibleProtocol),
    });
    assert_eq!(stale.unavailable.as_deref(), Some("IncompatibleProtocol"));
    assert_eq!(stale.error.as_deref(), Some("gone"));
    assert!(stale.state.is_none());
}

#[test]
fn agents_are_told_of_panes_windows_and_places() {
    let panes = pane_list(vec![PaneStatus {
        id: 4,
        active: true,
        visible: false,
        state: SessionState::Running,
        x: 1,
        y: 2,
        cols: 3,
        rows: 4,
        title: "t".to_owned(),
        command: vec!["sh".to_owned()],
        cwd: "/".to_owned(),
    }]);
    assert_eq!(panes.len(), 1);
    assert_eq!((panes[0].id, panes[0].state.as_str()), (4, "running"));
    let windows = window_list(vec![WindowStatus {
        index: 1,
        name: "main".to_owned(),
        active: true,
        pane_count: 1,
        active_pane: Some(4),
        zoomed_pane: None,
        activity: true,
        activity_kinds: vec![ActivityKind::Exit, ActivityKind::Bell],
        cols: 80,
        rows: 24,
    }]);
    assert_eq!(windows[0].activity_kinds, ["exit", "bell"]);
    assert_eq!(windows[0].active_pane, Some(4));
    let context = workspace_context(WorkspaceContext {
        session: "s".to_owned(),
        workspace: "w".to_owned(),
        window_id: 9,
        window: "main".to_owned(),
        window_index: 1,
        pane: 4,
        window_active: true,
        pane_active: false,
        tab_position: TabPosition::Top,
    });
    assert_eq!(context.tab_position, "top");
    assert_eq!((context.window_id, context.pane), (9, 4));
    assert_eq!(default_resize_cells(), 1);
    assert_eq!(sent_message("demo"), "sent input to demo");
    assert_eq!(resized_message("demo", 80, 24), "resized demo to 80x24");
    assert_eq!(stopped_message("demo"), "stopped demo");
}
