use terminal_control::cli::{
    context_lines, current_session_lines, prune_word, restart_session, RestartArgs,
};
use terminal_control::mcp::capture_target;
use terminal_control::replay::Replay;
use terminal_control::session::control::{
    only_pane_status, respond_workspace, WorkspaceAction, WorkspaceTarget,
};
use terminal_control::session::daemon::{serve, StartError};
use terminal_control::session::{
    close_workspace_pane, close_workspace_window, context_response, create_workspace_window,
    focus_workspace_pane, logs, logs_window, mark, move_workspace_pane, move_workspace_window,
    panes, panes_in_window, rename_workspace_window, resize, resize_workspace_pane,
    select_workspace_window, send_to, set_workspace_layout, set_workspace_tab_position,
    shot_response, show_in, show_pane, stop, toggle_workspace_zoom, wait_for_in, windows,
    workspace_context, Exchange, MissingPart, ProtocolCapability, PruneKind, Request,
    RequestRequirements, Response, SessionError, SessionLaunch, SessionState, SessionStatus,
};
use terminal_control::shot::{ColorMode, Options, Shot};
use terminal_control::workspace::{Direction, TabPosition, WorkspaceContext};

fn editor_status() -> SessionStatus {
    SessionStatus {
        state: SessionState::Running,
        exit: None,
        cols: 100,
        rows: 30,
        cell_width: 9,
        cell_height: 18,
        idle_for_ms: None,
        has_visible_content: true,
        recording: false,
        logs_truncated: false,
        launch: SessionLaunch {
            command: vec!["nvim".to_owned(), "notes.md".to_owned()],
            cwd: "/tmp/project".to_owned(),
            record: None,
            cols: 80,
            rows: 24,
            cell_width: 9,
            cell_height: 18,
            max_bytes: 1024,
            opentui_host: false,
            color: ColorMode::Auto,
        },
    }
}

fn editor_context() -> WorkspaceContext {
    WorkspaceContext {
        session: "demo".to_owned(),
        workspace: "demo".to_owned(),
        window_id: 4,
        window: "editor".to_owned(),
        window_index: 1,
        pane: 7,
        window_active: true,
        pane_active: false,
        tab_position: TabPosition::Top,
    }
}

fn screen() -> Shot {
    let mut replay = Replay::new(2, 5);
    replay.process(b"hi\r\nyou");
    Shot {
        frame: replay.frame(),
        ansi: b"hi\r\nyou".to_vec(),
    }
}

fn asked(exchange: Result<Exchange, SessionError>) -> (Request, RequestRequirements) {
    let exchange = exchange.unwrap();
    assert_eq!(exchange.name, "demo");
    (exchange.operation, exchange.requirements)
}

fn needs(capability: ProtocolCapability) -> RequestRequirements {
    RequestRequirements {
        capability: Some(capability),
        hold_name_lock: false,
    }
}

#[test]
fn printed_contexts_name_every_part() {
    assert_eq!(
        context_lines(&editor_context()),
        "workspace: demo\nwindow: 1 (4:editor)\npane: 7\ntabs: top"
    );
    assert_eq!(
        current_session_lines("demo", &editor_status()),
        "session: demo\nstate: running\ncwd: /tmp/project\ncommand: nvim notes.md"
    );
    assert_eq!(prune_word(PruneKind::Exited), "exited");
    assert_eq!(prune_word(PruneKind::Stale), "stale");
}

#[test]
fn agents_are_told_of_a_screen_as_text() {
    let told = capture_target("demo".to_owned(), &screen(), &editor_status());
    assert_eq!(told.name, "demo");
    assert_eq!(told.text, "hi\nyou");
    assert_eq!(told.state, "running");
    assert_eq!((told.cols, told.rows), (5, 2));
}

#[test]
fn a_session_is_its_only_pane() {
    let pane = only_pane_status(editor_status(), "notes".to_owned());
    assert_eq!(pane.id, 0);
    assert!(pane.active && pane.visible);
    assert_eq!(pane.state, SessionState::Running);
    assert_eq!((pane.x, pane.y, pane.cols, pane.rows), (0, 0, 100, 30));
    assert_eq!(pane.title, "notes");
    assert_eq!(pane.command, ["nvim", "notes.md"]);
    assert_eq!(pane.cwd, "/tmp/project");
}

#[test]
fn missing_parts_of_a_response_are_named() {
    let shown = shot_response(Response {
        captured: Some(screen()),
        ..Response::default()
    })
    .unwrap();
    assert_eq!(shown.ansi, b"hi\r\nyou");
    assert!(matches!(
        shot_response(Response::default()),
        Err(SessionError::Missing(MissingPart::Screen))
    ));
    let context = context_response(Response {
        context: Some(editor_context()),
        ..Response::default()
    })
    .unwrap();
    assert_eq!(context.pane, 7);
    assert!(matches!(
        context_response(Response::default()),
        Err(SessionError::Missing(MissingPart::Context))
    ));
}

#[test]
fn window_requests_carry_their_arguments() {
    let window = || "editor".to_owned();
    let (request, requirements) = asked(windows("demo"));
    assert!(matches!(request, Request::Windows));
    assert_eq!(requirements, needs(ProtocolCapability::Window));

    let (request, _) = asked(create_workspace_window(
        "demo",
        Some(window()),
        vec!["nvim".to_owned()],
        Some("/tmp".to_owned()),
    ));
    match request {
        Request::CreateWindow { name, command, cwd } => {
            assert_eq!(name.as_deref(), Some("editor"));
            assert_eq!(command, ["nvim"]);
            assert_eq!(cwd.as_deref(), Some("/tmp"));
        }
        other => panic!("{other:?}"),
    }
    let (request, _) = asked(select_workspace_window("demo", window()));
    assert!(matches!(request, Request::SelectWindow { name } if name == "editor"));
    let (request, _) = asked(rename_workspace_window("demo", window(), "notes".to_owned()));
    assert!(matches!(
        request,
        Request::RenameWindow { name, new_name } if name == "editor" && new_name == "notes"
    ));
    let (request, _) = asked(close_workspace_window("demo", window()));
    assert!(matches!(request, Request::CloseWindow { name } if name == "editor"));

    let (request, requirements) = asked(move_workspace_window("demo", window(), 2));
    assert!(matches!(request, Request::MoveWindow { name, index: 2 } if name == "editor"));
    assert_eq!(requirements, needs(ProtocolCapability::WorkspaceControl));
    let (request, requirements) =
        asked(set_workspace_tab_position("demo", TabPosition::Top));
    assert!(matches!(
        request,
        Request::SetTabPosition {
            position: TabPosition::Top
        }
    ));
    assert_eq!(requirements, needs(ProtocolCapability::WorkspaceControl));
    let (request, requirements) = asked(logs_window("demo", window(), true));
    assert!(matches!(request, Request::LogsWindow { name, ansi: true } if name == "editor"));
    assert_eq!(requirements, needs(ProtocolCapability::Window));
    let (request, requirements) = asked(workspace_context("demo", Some(7)));
    assert!(matches!(request, Request::WorkspaceContext { pane: Some(7) }));
    assert_eq!(requirements, needs(ProtocolCapability::WorkspaceControl));
}

#[test]
fn pane_requests_carry_their_arguments() {
    let (request, _) = asked(panes("demo"));
    assert!(matches!(request, Request::Panes));
    let (request, _) = asked(panes_in_window("demo", None));
    assert!(matches!(request, Request::Panes));
    let (request, requirements) = asked(panes_in_window("demo", Some("editor".to_owned())));
    assert!(matches!(request, Request::WindowPanes { name } if name == "editor"));
    assert_eq!(requirements, needs(ProtocolCapability::Window));
    let (request, _) = asked(set_workspace_layout("demo", 2, 1, Vec::new()));
    assert!(matches!(
        request,
        Request::Layout { columns: 2, rows: 1, command } if command.is_empty()
    ));
    let (request, _) = asked(focus_workspace_pane("demo", 7));
    assert!(matches!(request, Request::FocusPane { pane: 7 }));
    let (request, _) = asked(close_workspace_pane("demo", 7));
    assert!(matches!(request, Request::ClosePane { pane: 7 }));
    let (request, requirements) =
        asked(move_workspace_pane("demo", 7, "editor".to_owned(), true));
    assert!(matches!(
        request,
        Request::MovePane { pane: 7, window, vertical: true } if window == "editor"
    ));
    assert_eq!(requirements, needs(ProtocolCapability::Window));
    let (request, requirements) =
        asked(resize_workspace_pane("demo", 7, Direction::Left, 3));
    assert!(matches!(
        request,
        Request::ResizePane {
            pane: 7,
            direction: Direction::Left,
            cells: 3
        }
    ));
    assert_eq!(requirements, needs(ProtocolCapability::Window));
    let (request, requirements) = asked(toggle_workspace_zoom("demo", 7));
    assert!(matches!(request, Request::ToggleZoom { pane: 7 }));
    assert_eq!(requirements, needs(ProtocolCapability::Window));
}

#[test]
fn terminal_requests_go_to_their_target() {
    let (request, _) = asked(wait_for_in(
        "demo",
        Some("editor".to_owned()),
        None,
        "ready".to_owned(),
        40,
    ));
    assert!(matches!(
        request,
        Request::WaitWindow { name, text, timeout_ms: 40 } if name == "editor" && text == "ready"
    ));
    let (request, _) = asked(send_to("demo", Some(3), vec![b"x".to_vec()], 5));
    assert!(matches!(
        request,
        Request::Send { input, pace_ms: 5, pane: Some(3) } if input == [b"x".to_vec()]
    ));
    let (request, _) = asked(show_pane("demo", Some(3), 1, 2));
    assert!(matches!(
        request,
        Request::Show {
            settle_ms: 1,
            deadline_ms: 2,
            pane: Some(3)
        }
    ));
    let (request, _) = asked(show_in("demo", Some("editor".to_owned()), None, 1, 2));
    assert!(matches!(
        request,
        Request::ShowWindow { name, settle_ms: 1, deadline_ms: 2 } if name == "editor"
    ));
    assert!(matches!(
        show_in("demo", Some("editor".to_owned()), Some(3), 1, 2),
        Err(SessionError::TargetConflict)
    ));
    let (request, requirements) = asked(logs("demo", false));
    assert!(matches!(request, Request::Logs { ansi: false }));
    assert_eq!(requirements.capability, None);
    let (request, _) = asked(resize("demo", 90, 20, None, Some(18)));
    assert!(matches!(
        request,
        Request::Resize {
            cols: 90,
            rows: 20,
            cell_width: None,
            cell_height: Some(18)
        }
    ));
    let (request, _) = asked(mark("demo", "done".to_owned()));
    assert!(matches!(request, Request::Mark { name } if name == "done"));
    let (request, requirements) = asked(stop("demo"));
    assert!(matches!(request, Request::Stop));
    assert_eq!(requirements.capability, None);
    assert!(matches!(stop("../demo"), Err(SessionError::InvalidName)));
}

#[test]
fn served_applications_know_their_session() {
    let mut options = Options::default();
    options.env.set("TERMCTRL_SESSION".to_owned(), "other".to_owned());
    options.env.set("LANG".to_owned(), "C".to_owned());
    let command = ["sh".to_owned()];
    let served = serve("demo".to_owned(), &command, options).unwrap();
    let value = |key: &str| served.env.get(key).map(|value| value.as_str());
    assert_eq!(value("TERMCTRL_SESSION"), Some("demo"));
    assert_eq!(value("LANG"), Some("C"));
    assert_eq!((served.cols, served.rows), (80, 24));
    assert!(matches!(
        serve("demo".to_owned(), &[], Options::default()),
        Err(StartError::NoCommand)
    ));
}

#[test]
fn plain_restarts_keep_the_launch_settings() {
    let nothing = RestartArgs {
        cols: None,
        rows: None,
        cell_width: None,
        cell_height: None,
        max_bytes: None,
        cwd: None,
        record: None,
        color: None,
        opentui_host: false,
        command: Vec::new(),
    };
    let restart = restart_session(editor_status().launch, nothing).unwrap();
    assert_eq!(restart.command, ["nvim", "notes.md"]);
    assert_eq!(restart.cwd, b"/tmp/project");
    assert_eq!(restart.record, None);
    assert_eq!((restart.options.cols, restart.options.rows), (80, 24));
    assert_eq!(restart.options.max_bytes, 1024);
}

#[test]
fn reading_a_window_does_not_select_it() {
    let plan = respond_workspace(
        Request::ShowWindow {
            name: "editor".to_owned(),
            settle_ms: 0,
            deadline_ms: 0,
        },
        0,
    )
    .unwrap();
    assert!(matches!(
        plan.action,
        WorkspaceAction::Capture { target: WorkspaceTarget::Window(name), .. } if name == "editor"
    ));
}
