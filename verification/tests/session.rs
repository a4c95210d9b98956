use terminal_control::environment::EnvAction;
use terminal_control::runtime::SocketFacts;
use terminal_control::session::control::{
    answer, check_attachment_socket, conclude, handle_control, resized_cells, respond,
    respond_workspace, serve_result, session_finished, workspace_finished, workspace_pause,
    ControlError, Given, Incoming, Liveness, LookedUp, Lookup, Outcome, Pause, Reply,
    SessionAction, Subject, Timed, WorkspaceAction, WorkspaceTarget, NOTHING_TO_TELL,
};
use terminal_control::session::daemon::{
    attach_answer, attachment_file, attachment_id, attachment_rejection, await_attachment,
    await_ready, await_stopped, check_command, list, lock_file, named_status, run_foreground,
    serve_arguments, serve_environment, session_name, socket_file, stale_socket_error,
    start_locked, stopped_for_restart, valid_workspace_attachment_size, workspace_arguments,
    AcceptNext, AwaitNext, ConnectFailure, Daemon, Found, PruneNext, RequestFailure, ResizeWatch,
    StartError, StartNext,
};
use terminal_control::session::{
    infer_name, logs_response, pane_response, prune, runtime_dir, semantic_snapshot_in, send_to_in,
    set_workspace_layout_in_window, shot_and_status_response, status, status_response, wait_for,
    window_response, CaptureReason, MissingPart, NamedSessionStatus, ProtocolCapability, PruneKind,
    Request, RequestRequirements, Response, SessionError, SessionLaunch, SessionState,
    SessionStatus, UnavailableReason, LAYOUT_COMMAND_PROTOCOL_VERSION, SEMANTIC_PROTOCOL_VERSION,
};
use terminal_control::shot::{ColorMode, Options, Shot};
use terminal_control::terminal_theme::TerminalTheme;
use terminal_control::workspace::TabPosition;

fn texts(items: &[&str]) -> Vec<String> {
    items.iter().map(|item| item.to_string()).collect()
}

fn encoded(items: &[&str]) -> Vec<Vec<u8>> {
    items.iter().map(|item| item.as_bytes().to_vec()).collect()
}

fn some_status(state: SessionState) -> SessionStatus {
    SessionStatus {
        state,
        exit: None,
        cols: 80,
        rows: 24,
        cell_width: 9,
        cell_height: 18,
        idle_for_ms: None,
        has_visible_content: false,
        recording: false,
        logs_truncated: false,
        launch: SessionLaunch {
            command: texts(&["sh"]),
            cwd: "/".to_owned(),
            record: None,
            cols: 80,
            rows: 24,
            cell_width: 9,
            cell_height: 18,
            max_bytes: 1,
            opentui_host: false,
            color: ColorMode::Auto,
        },
    }
}

fn some_shot() -> Shot {
    let mut replay = terminal_control::replay::Replay::new(1, 2);
    replay.process(b"a");
    Shot {
        frame: replay.frame(),
        ansi: b"a".to_vec(),
    }
}

fn failure(causes: Vec<ConnectFailure>) -> RequestFailure {
    RequestFailure {
        message: "no answer".to_owned(),
        causes,
    }
}

#[test]
fn occupied_workspace_attachment_error_names_recovery_actions() {
    let error = attachment_rejection("editor", "workspace already has an attached terminal");

    assert!(error.contains("workspace \"editor\""));
    assert!(error.contains("ctrl-b d"));
    assert!(error.contains("termctrl run NAME"));
    assert_eq!(attachment_rejection("editor", "other"), "other");
}

#[test]
fn transient_one_row_attachment_sizes_are_not_sent() {
    assert!(!valid_workspace_attachment_size(80, 1));
    assert!(valid_workspace_attachment_size(80, 2));
}

#[test]
fn old_control_responses_deserialize_but_require_a_workspace_restart() {
    let response = Response {
        protocol_version: 0,
        ..Response::default()
    };
    assert!(ProtocolCapability::Pane
        .require(&response)
        .unwrap_err()
        .message()
        .contains("restart it with the current termctrl"));
    assert!(ProtocolCapability::Window
        .require(&response)
        .unwrap_err()
        .message()
        .contains("predates named windows"));
    assert!(ProtocolCapability::LayoutCommand
        .require(&response)
        .unwrap_err()
        .message()
        .contains("predates pane startup commands"));
    assert!(ProtocolCapability::WorkspaceControl
        .require(&response)
        .unwrap_err()
        .message()
        .contains("predates runtime workspace controls"));
    let version_four = Response {
        protocol_version: LAYOUT_COMMAND_PROTOCOL_VERSION,
        ..Response::default()
    };
    ProtocolCapability::Window.require(&version_four).unwrap();
    ProtocolCapability::LayoutCommand.require(&version_four).unwrap();
    assert!(ProtocolCapability::WorkspaceControl.require(&version_four).is_err());
    assert!(ProtocolCapability::Semantic.require(&version_four).is_err());
    assert_eq!(Response::default().protocol_version, SEMANTIC_PROTOCOL_VERSION);
}

#[test]
fn workspace_request_requirements_are_local_to_each_request() {
    let cases = [
        (Request::Panes, Some(ProtocolCapability::Pane), false),
        (
            Request::Show {
                settle_ms: 0,
                deadline_ms: 0,
                pane: Some(3),
            },
            Some(ProtocolCapability::Pane),
            false,
        ),
        (
            Request::Attach {
                id: 1,
                socket: "/tmp/attach.sock".to_owned(),
                cols: 80,
                rows: 24,
                cell_width: 9,
                cell_height: 18,
                theme: TerminalTheme::default(),
            },
            Some(ProtocolCapability::Attachment),
            false,
        ),
        (Request::Windows, Some(ProtocolCapability::Window), false),
        (
            Request::Layout {
                columns: 2,
                rows: 1,
                command: vec!["nvim".to_owned()],
            },
            Some(ProtocolCapability::LayoutCommand),
            true,
        ),
        (
            Request::SetTabPosition {
                position: TabPosition::Top,
            },
            Some(ProtocolCapability::WorkspaceControl),
            false,
        ),
        (
            Request::SemanticSnapshot {
                deadline_unix_ms: 1,
                pane: None,
                window: None,
            },
            Some(ProtocolCapability::Semantic),
            false,
        ),
        (Request::Status, None, false),
    ];

    for (request, capability, hold_name_lock) in cases {
        assert_eq!(
            request.requirements(),
            RequestRequirements {
                capability,
                hold_name_lock,
            }
        );
    }
}

#[test]
fn infers_session_name_from_executable_basename() {
    assert_eq!(infer_name(&["nvim".to_owned()]).unwrap(), "nvim");
    assert_eq!(infer_name(&["/usr/bin/nvim".to_owned()]).unwrap(), "nvim");
}

#[test]
fn rejects_empty_or_invalid_inferred_session_names() {
    assert!(infer_name(&["/".to_owned()])
        .unwrap_err()
        .message()
        .contains("basename is empty or invalid"));
    assert!(infer_name(&["/usr/bin/my editor".to_owned()])
        .unwrap_err()
        .message()
        .contains("basename \"my editor\" is invalid"));
    assert!(infer_name(&[])
        .unwrap_err()
        .message()
        .contains("provide a command after --"));
}

#[test]
fn inferred_names_follow_the_last_path_component() {
    for (path, name) in [
        ("/usr/bin/nvim/", "nvim"),
        ("./a/./b/.", "b"),
        ("a//", "a"),
        ("..x", "..x"),
    ] {
        assert_eq!(infer_name(&[path.to_owned()]).unwrap(), name);
    }
    for path in ["", ".", "..", "a/.."] {
        assert!(matches!(
            infer_name(&[path.to_owned()]),
            Err(SessionError::EmptyBasename { executable }) if executable == path
        ));
    }
    assert_eq!(
        infer_name(&["a b".to_owned()]).unwrap_err().message(),
        "cannot infer a session name from executable \"a b\": basename \"a b\" is invalid: session names may contain only ASCII letters, digits, '.', '-', and '_'"
    );
}

#[test]
fn requests_go_to_valid_names_with_their_requirements() {
    let exchange = status("demo-1.x_Y").unwrap();
    assert_eq!(exchange.name, "demo-1.x_Y");
    assert!(matches!(exchange.operation, Request::Status));
    assert_eq!(exchange.requirements.capability, None);
    for name in ["", "a b", "a/b", "\u{e9}"] {
        assert!(matches!(status(name), Err(SessionError::InvalidName)));
    }
    let layout = set_workspace_layout_in_window(
        "w",
        Some("main".to_owned()),
        2,
        1,
        texts(&["nvim"]),
    )
    .unwrap();
    assert!(layout.requirements.hold_name_lock);
    assert!(matches!(
        layout.operation,
        Request::WindowLayout { ref name, columns: 2, rows: 1, .. } if name == "main"
    ));
    let wait = wait_for("w", Some(3), "ready".to_owned(), 5).unwrap();
    assert!(matches!(
        wait.operation,
        Request::Wait { ref text, timeout_ms: 5, pane: Some(3) } if text == "ready"
    ));
    assert!(matches!(
        send_to_in("a b", Some("w".to_owned()), Some(1), Vec::new(), 0),
        Err(SessionError::TargetConflict)
    ));
    assert!(matches!(
        semantic_snapshot_in("a b", Some("w".to_owned()), Some(1), 9),
        Err(SessionError::InvalidName)
    ));
    assert!(matches!(
        semantic_snapshot_in("a", Some("w".to_owned()), None, 9).unwrap().operation,
        Request::SemanticSnapshot { deadline_unix_ms: 9, pane: None, window: Some(_) }
    ));
}

#[test]
fn answers_are_checked_for_capability_then_error() {
    let exchange = set_workspace_layout_in_window("w", None, 1, 1, texts(&["nvim"])).unwrap();
    let old = Response {
        protocol_version: 3,
        error: Some("busy".to_owned()),
        ..Response::default()
    };
    assert!(matches!(
        exchange.finish(old),
        Err(SessionError::RestartRequired(ProtocolCapability::LayoutCommand))
    ));
    assert_eq!(
        exchange.finish(Response::error("busy".to_owned())).unwrap_err().message(),
        "busy"
    );
    assert!(exchange.finish(Response::default()).is_ok());
    let old = Response {
        protocol_version: 3,
        error: Some("busy".to_owned()),
        ..Response::default()
    };
    assert_eq!(exchange.check_ping(old).unwrap_err().message(), "busy");
    assert!(exchange.check_ping(Response::default()).is_ok());
}

#[test]
fn missing_parts_are_named() {
    assert_eq!(
        status_response(Response::default()).unwrap_err().message(),
        "session did not return status"
    );
    assert_eq!(
        pane_response(Response::default()).unwrap_err().message(),
        "session did not return panes"
    );
    assert_eq!(
        window_response(Response::default()).unwrap_err().message(),
        "session did not return windows"
    );
    assert_eq!(
        logs_response(Response::default()).unwrap_err().message(),
        "session did not return logs"
    );
    assert!(matches!(
        shot_and_status_response(Response::default()),
        Err(SessionError::Missing(MissingPart::Screen))
    ));
    assert!(matches!(
        shot_and_status_response(Response {
            captured: Some(some_shot()),
            ..Response::default()
        }),
        Err(SessionError::Missing(MissingPart::Status))
    ));
}

#[test]
fn single_sessions_have_one_pane_and_no_windows() {
    assert!(matches!(
        respond(Request::Show { settle_ms: 1, deadline_ms: 2, pane: Some(0) }, 0),
        Ok(SessionAction::Show { settle_ms: 1, deadline_ms: 2 })
    ));
    assert_eq!(
        respond(Request::Show { settle_ms: 1, deadline_ms: 2, pane: Some(1) }, 0)
            .unwrap_err()
            .message(),
        "single sessions only contain pane 0"
    );
    assert_eq!(
        respond(Request::Windows, 0).unwrap_err().message(),
        "only workspaces support named windows"
    );
    assert_eq!(
        respond(Request::FocusPane { pane: 0 }, 0).unwrap_err().message(),
        "only attached workspaces support pane layout control"
    );
    assert!(matches!(
        respond(
            Request::SemanticSnapshot { deadline_unix_ms: 150, pane: None, window: None },
            100
        ),
        Ok(SessionAction::SemanticSnapshot { timeout_ms: 50 })
    ));
    assert_eq!(
        respond(
            Request::SemanticSnapshot { deadline_unix_ms: 100, pane: None, window: None },
            100
        )
        .unwrap_err()
        .message(),
        "application semantic timed out before it was handled"
    );
}

#[test]
fn workspace_requests_are_bounded() {
    let send = |pace_ms: u64, bursts: usize| {
        respond_workspace(
            Request::Send { input: vec![Vec::new(); bursts], pace_ms, pane: None },
            0,
        )
    };
    assert!(send(600000, 2).is_ok());
    assert_eq!(
        send(600001, 2).unwrap_err().message(),
        "paced input exceeds the 10 minute workspace control limit"
    );
    assert!(send(u64::MAX, 1).is_ok());
    assert_eq!(send(u64::MAX, 3).unwrap_err(), ControlError::TooLong(Timed::PacedInput));
    assert_eq!(
        respond_workspace(
            Request::WaitWindow {
                name: "w".to_owned(),
                text: "x".to_owned(),
                timeout_ms: 600001
            },
            0
        )
        .unwrap_err()
        .message(),
        "wait timeout exceeds the 10 minute workspace control limit"
    );
    assert_eq!(
        respond_workspace(Request::Show { settle_ms: 0, deadline_ms: 600001, pane: None }, 0)
            .unwrap_err()
            .message(),
        "capture deadline exceeds the 10 minute workspace control limit"
    );
    assert_eq!(
        respond_workspace(
            Request::Resize { cols: 1, rows: 1, cell_width: None, cell_height: None },
            0
        )
        .unwrap_err()
        .message(),
        "visible workspace dimensions are owned by the attached terminal"
    );
}

#[test]
fn workspace_plans_say_what_comes_first() {
    let plan = respond_workspace(Request::ClosePane { pane: 4 }, 0).unwrap();
    assert!(plan.tick);
    assert_eq!(plan.liveness, Liveness::Open);
    assert_eq!(plan.reply, Reply::SelectedPanes);
    assert!(matches!(plan.action, WorkspaceAction::ClosePane { pane: 4 }));
    assert_eq!(plan.liveness.check(true, false, false), Err(ControlError::Ended));
    assert_eq!(plan.liveness.check(false, true, true), Ok(()));

    let plan = respond_workspace(
        Request::ShowWindow { name: "w".to_owned(), settle_ms: 1, deadline_ms: 2 },
        0,
    )
    .unwrap();
    assert!(!plan.tick);
    assert!(matches!(
        plan.action,
        WorkspaceAction::Capture { target: WorkspaceTarget::Window(_), settle_ms: 1, deadline_ms: 2 }
    ));
    assert_eq!(Liveness::Attachable.check(false, false, true), Err(ControlError::Attached));
    assert_eq!(
        ControlError::Attached.message(),
        "workspace already has an attached terminal"
    );
    assert_eq!(Liveness::Attachable.check(false, true, true), Err(ControlError::Ended));
}

#[test]
fn workspace_show_returns_capture_and_status_atomically() {
    let plan =
        respond_workspace(Request::Show { settle_ms: 0, deadline_ms: 0, pane: None }, 0).unwrap();
    assert_eq!(plan.reply, Reply::Screen);
    let response = answer(Outcome::Screen(some_shot(), some_status(SessionState::Running)));
    assert!(response.captured.is_some());
    assert!(response.status.is_some());
    assert!(response.error.is_none());
}

#[test]
fn sessions_tell_what_a_request_asks_for() {
    let told = |request: Request, given: Given| {
        let action = respond(request, 0).unwrap();
        let reply = action.reply();
        let found = match reply.lookup() {
            Lookup::Status => LookedUp::Status(some_status(SessionState::Running)),
            _ => LookedUp::Nothing,
        };
        answer(conclude(reply, given, found))
    };
    let shown = told(
        Request::Show { settle_ms: 0, deadline_ms: 0, pane: None },
        Given::Shot(some_shot()),
    );
    assert!(shown.captured.is_some() && shown.status.is_some() && shown.error.is_none());
    let status = told(Request::Status, Given::Nothing);
    assert!(status.status.is_some() && status.captured.is_none());
    let logs = told(Request::Logs { ansi: true }, Given::Logs(b"log".to_vec()));
    assert_eq!(logs.logs.as_deref(), Some(&b"log"[..]));
    assert!(logs.status.is_none());
    let marked = told(Request::Mark { name: "ready".to_owned() }, Given::Nothing);
    assert!(marked.error.is_none() && marked.status.is_none() && marked.panes.is_none());
    let lost = told(Request::Logs { ansi: true }, Given::Nothing);
    assert_eq!(lost.error.as_deref(), Some(NOTHING_TO_TELL));

    assert_eq!(Reply::SelectedPanes.lookup(), Lookup::Panes);
    assert_eq!(Reply::Windows.lookup(), Lookup::Windows);
    assert!(matches!(
        conclude(Reply::SelectedPanes, Given::Nothing, LookedUp::Panes(Vec::new())),
        Outcome::Panes(panes) if panes.is_empty()
    ));
}

#[test]
fn resizing_keeps_the_cell_size_that_is_not_said() {
    let status = some_status(SessionState::Running);
    assert_eq!(
        resized_cells(None, Some(40), &status),
        (status.cell_width, 40)
    );
    assert_eq!(
        resized_cells(Some(20), None, &status),
        (20, status.cell_height)
    );
}

#[test]
fn attachment_sockets_must_be_private() {
    let facts = SocketFacts { is_socket: true, uid: 1000, mode: 0o140600 };
    assert_eq!(check_attachment_socket(true, facts, 1000), Ok(()));
    assert_eq!(
        check_attachment_socket(false, facts, 1000).unwrap_err().message(),
        "attachment socket must be an owner-only socket in the runtime directory"
    );
    let open = SocketFacts { mode: 0o140610, ..facts };
    assert!(check_attachment_socket(true, open, 1000).is_err());
    assert!(check_attachment_socket(true, facts, 0).is_err());
}

#[test]
fn bad_requests_are_answered_with_an_error() {
    let long = handle_control(
        Subject::Workspace,
        Incoming::Invalid { length: 1048577, error: "x".to_owned() },
    );
    assert_eq!(
        long.unwrap_err().error.as_deref(),
        Some("workspace request exceeds 1 MiB")
    );
    let invalid =
        handle_control(Subject::Session, Incoming::Invalid { length: 3, error: "x".to_owned() });
    assert_eq!(
        invalid.unwrap_err().error.as_deref(),
        Some("invalid session request: x")
    );
    let unread = handle_control(Subject::Session, Incoming::Failed("x".to_owned()));
    assert_eq!(
        unread.unwrap_err().error.as_deref(),
        Some("failed to read session request: x")
    );
    assert!(matches!(
        handle_control(
            Subject::Session,
            Incoming::Parsed { length: 1048576, request: Request::Ping }
        ),
        Ok(Request::Ping)
    ));
}

#[test]
fn serving_ends_when_it_is_told_to() {
    assert!(session_finished(true, true));
    assert!(!session_finished(true, false));
    assert!(workspace_finished(false, true, false, true));
    assert!(!workspace_finished(true, false, true, true));
    assert_eq!(workspace_pause(true, false, true, false), Pause::Sleep(16));
    assert_eq!(workspace_pause(true, false, false, true), Pause::Sleep(5));
    assert_eq!(workspace_pause(true, false, false, false), Pause::Poll(50));
    assert_eq!(workspace_pause(false, false, true, false), Pause::Stop);
    assert_eq!(
        serve_result(Err("run".to_owned()), Err("stop".to_owned())),
        Err("workspace finalization also failed: stop: run".to_owned())
    );
    assert_eq!(serve_result(Ok(()), Err("stop".to_owned())), Err("stop".to_owned()));
}

#[test]
fn only_connection_failures_identify_stale_sockets() {
    assert!(stale_socket_error(&vec![ConnectFailure::ConnectionRefused]));
    assert!(!stale_socket_error(&vec![ConnectFailure::Other]));
    assert!(stale_socket_error(&vec![ConnectFailure::Other, ConnectFailure::NotFound]));
    assert!(!stale_socket_error(&Vec::new()));
}

#[test]
fn sockets_are_named_after_their_session() {
    assert_eq!(socket_file("demo"), "demo.sock");
    assert_eq!(lock_file("demo"), "demo.lock");
    assert_eq!(attachment_file("demo", 0xabc), "demo.attach-0000000000000abc");
    assert_eq!(
        attachment_file("demo", u64::MAX),
        "demo.attach-ffffffffffffffff"
    );
    assert_eq!(attachment_id(1, 2, 4), (2u64 << 32) ^ 5);
    assert_eq!(session_name("demo.sock").as_deref(), Some("demo"));
    assert_eq!(session_name("a.b.sock").as_deref(), Some("a.b"));
    assert_eq!(session_name(".sock"), None);
    assert_eq!(session_name("demo.lock"), None);
    assert_eq!(session_name("sock"), None);
    assert_eq!(runtime_dir(None, 1000), b"/tmp/termctrl-1000");
    assert_eq!(runtime_dir(Some(b"/run/x".to_vec()), 1000), b"/run/x");
}

#[test]
fn listed_sessions_come_in_the_order_of_their_names() {
    let named = |name: &str| NamedSessionStatus {
        name: name.to_owned(),
        status: None,
        error: None,
        unavailable: None,
    };
    let names = list(vec![named("b"), named("a.b"), named("B"), named("a"), named("ab")])
        .into_iter()
        .map(|session| session.name)
        .collect::<Vec<_>>();
    assert_eq!(names, ["B", "a", "a.b", "ab", "b"]);
}

#[test]
fn unavailable_sessions_say_why() {
    let stale = named_status("a".to_owned(), Err(failure(vec![ConnectFailure::NotFound])));
    assert_eq!(stale.unavailable, Some(UnavailableReason::Stale));
    assert_eq!(stale.error.as_deref(), Some("no answer"));
    let strange = named_status("a".to_owned(), Err(failure(vec![ConnectFailure::Other])));
    assert_eq!(strange.unavailable, Some(UnavailableReason::IncompatibleProtocol));
    let known = named_status(
        "a".to_owned(),
        Ok(Response {
            status: Some(some_status(SessionState::Running)),
            ..Response::default()
        }),
    );
    assert!(known.status.is_some());
    assert_eq!(known.unavailable, None);
}

#[test]
fn pruning_spares_what_runs_and_dry_runs_change_nothing() {
    let dry = prune("stale", true).unwrap();
    let real = prune("stale", false).unwrap();
    assert!(prune("a b", true).is_err());
    let trusted = SocketFacts { is_socket: true, uid: 5, mode: 0o600 };
    assert!(matches!(dry.found(Some(trusted), 5, "/x"), PruneNext::Ask));
    assert!(matches!(dry.found(None, 5, "/x"), PruneNext::Keep));
    match dry.found(Some(trusted), 6, "/x") {
        PruneNext::Failed(error) => {
            assert_eq!(error.message(), "refusing to prune untrusted session socket /x")
        }
        other => panic!("unexpected {other:?}"),
    }
    let refused = || Err(failure(vec![ConnectFailure::ConnectionRefused]));
    assert!(matches!(dry.asked(refused()), PruneNext::Done(PruneKind::Stale)));
    assert!(matches!(real.asked(refused()), PruneNext::RemoveSocket));
    let answered = |state: SessionState| {
        Ok(Response {
            status: Some(some_status(state)),
            ..Response::default()
        })
    };
    assert!(matches!(real.asked(answered(SessionState::Running)), PruneNext::Keep));
    assert!(matches!(real.asked(answered(SessionState::Exited)), PruneNext::Stop));
    assert!(matches!(
        dry.asked(answered(SessionState::Exited)),
        PruneNext::Done(PruneKind::Exited)
    ));
    match real.asked(Err(failure(vec![ConnectFailure::Other]))) {
        PruneNext::Failed(error) => assert_eq!(
            error.message(),
            "refusing to prune an unresponsive session: no answer"
        ),
        other => panic!("unexpected {other:?}"),
    }
    match real.asked(Ok(Response::default())) {
        PruneNext::Failed(error) => assert_eq!(
            error.message(),
            "session did not return status while pruning"
        ),
        other => panic!("unexpected {other:?}"),
    }
    assert!(matches!(
        real.stopped(Response::default()),
        PruneNext::Done(PruneKind::Exited)
    ));
}

#[test]
fn daemons_are_started_with_their_settings() {
    let options = Options {
        opentui_host: true,
        color: ColorMode::Never,
        ..Options::default()
    };
    assert_eq!(
        serve_arguments(
            "demo",
            b"/run/demo.sock",
            &options,
            &Some(b"/tmp".to_vec()),
            &None,
            &texts(&["nvim", "-u"]),
        ),
        encoded(&[
            "__serve", "--name", "demo", "--socket", "/run/demo.sock", "--cols", "80", "--rows",
            "24", "--cell-width", "9", "--cell-height", "18", "--max-bytes", "16777216",
            "--opentui-host", "--color", "never", "--cwd", "/tmp", "--", "nvim", "-u",
        ])
    );
    assert_eq!(
        workspace_arguments(
            "w",
            b"/run/w.sock",
            &Options::default(),
            TabPosition::Top,
            &None,
            &Some(b"/tmp/w.termctrl".to_vec()),
            &[],
        ),
        encoded(&[
            "__serve-workspace", "--name", "w", "--socket", "/run/w.sock", "--cols", "80",
            "--rows", "24", "--cell-width", "9", "--cell-height", "18", "--max-bytes", "16777216",
            "--tab-position", "top", "--record", "/tmp/w.termctrl",
        ])
    );
    let named = serve_arguments(
        "demo",
        b"/run/\xff/demo.sock",
        &Options::default(),
        &Some(b"/tmp/\xfe".to_vec()),
        &Some(b"/tmp/\xfd.termctrl".to_vec()),
        &texts(&["caf\u{e9}"]),
    );
    assert_eq!(named[4], b"/run/\xff/demo.sock");
    assert_eq!(named[16], b"/tmp/\xfe");
    assert_eq!(named[18], b"/tmp/\xfd.termctrl");
    assert_eq!(named[20], b"caf\xc3\xa9");
    let environment = serve_environment("demo");
    assert_eq!(environment.len(), 4);
    assert!(matches!(
        &environment[0],
        EnvAction::Remove { key } if key == "TERMCTRL_WORKSPACE"
    ));
    assert!(matches!(
        &environment[3],
        EnvAction::Assign { key, value } if key == "TERMCTRL_SESSION" && value == "demo"
    ));
}

#[test]
fn starting_does_not_replace_what_runs() {
    assert!(matches!(start_locked("a", Found::Nothing), StartNext::Spawn));
    assert!(matches!(start_locked("a", Found::Stale), StartNext::RemoveAndSpawn));
    match start_locked("a", Found::Running) {
        StartNext::Failed(error) => {
            assert_eq!(error.message(), "session \"a\" is already running")
        }
        other => panic!("unexpected {other:?}"),
    }
    assert!(matches!(run_foreground("a", &[], Found::Running), StartNext::Attach));
    match run_foreground("a", &texts(&["nvim"]), Found::Running) {
        StartNext::Failed(error) => assert_eq!(
            error.message(),
            "workspace \"a\" already exists; omit the command to attach"
        ),
        other => panic!("unexpected {other:?}"),
    }
    assert_eq!(
        check_command(&[]).unwrap_err().message(),
        "provide a command after --"
    );
    assert_eq!(
        StartError::Locked.message(),
        "another session operation is already starting this name"
    );
}

#[test]
fn daemons_are_awaited_for_a_while() {
    assert!(matches!(
        await_ready(Daemon::Session, "a", true, None, 5, 9),
        AwaitNext::Done
    ));
    assert!(matches!(
        await_ready(Daemon::Session, "a", false, None, 5, 4),
        AwaitNext::Rest(20)
    ));
    match await_ready(Daemon::Session, "a", false, None, 5, 5) {
        AwaitNext::GiveUp(error) => {
            assert_eq!(error.message(), "timed out starting session \"a\"")
        }
        other => panic!("unexpected {other:?}"),
    }
    match await_ready(Daemon::Workspace, "a", false, Some("exit status: 1".to_owned()), 5, 5) {
        AwaitNext::Failed(error) => assert_eq!(
            error.message(),
            "workspace daemon for \"a\" exited before becoming ready: exit status: 1"
        ),
        other => panic!("unexpected {other:?}"),
    }
    assert!(matches!(await_stopped("a", false, 5, 9), AwaitNext::Done));
    match await_stopped("a", true, 5, 5) {
        AwaitNext::Failed(error) => assert_eq!(
            error.message(),
            "timed out stopping session \"a\" before restart"
        ),
        other => panic!("unexpected {other:?}"),
    }
    assert!(!stopped_for_restart(None).unwrap());
    assert!(stopped_for_restart(Some(Response::default())).unwrap());
    assert!(stopped_for_restart(Some(Response::error("busy".to_owned()))).is_err());
}

#[test]
fn attachments_are_answered_and_awaited() {
    assert!(attach_answer("w", Response::default()).is_ok());
    assert!(attach_answer(
        "w",
        Response::error("workspace already has an attached terminal".to_owned())
    )
    .unwrap_err()
    .message()
    .contains("termctrl run NAME"));
    assert!(matches!(
        attach_answer("w", Response { protocol_version: 1, ..Response::default() }),
        Err(SessionError::RestartRequired(ProtocolCapability::Attachment))
    ));
    assert_eq!(await_attachment(false, 5, 4), AcceptNext::Rest(10));
    assert_eq!(await_attachment(false, 5, 5), AcceptNext::TimedOut);
    assert_eq!(await_attachment(true, 5, 9), AcceptNext::Attached);
}

#[test]
fn sizes_are_told_again_only_when_they_were_not_taken() {
    let mut watch = ResizeWatch::start(80, 24, 0);
    assert!(!watch.should_tell(80, 24, 1));
    assert!(!watch.should_tell(80, 1, 1));
    assert!(watch.should_tell(100, 24, 1));
    watch.note(100, 24, false, 1);
    assert!(!watch.should_tell(100, 24, 1_000_000_000));
    assert!(watch.should_tell(100, 24, 1_000_000_001));
    watch.note(100, 24, true, 1_000_000_001);
    assert!(!watch.should_tell(100, 24, 3_000_000_000));
    assert_eq!(CaptureReason::Idle, CaptureReason::Idle);
}
