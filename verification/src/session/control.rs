//! Serving control requests: what each one asks of a session or a workspace, when it is refused,
//! and how it is answered.
use crate::runtime::SocketFacts;
use crate::semantic::{self, DeadlineError};
use crate::session::{Request, Response, SemanticSnapshotResult, SessionStatus};
use crate::shot::Shot;
use crate::terminal_theme::TerminalTheme;
use crate::workspace::{
    Direction, PaneId, PaneStatus, TabPosition, WindowStatus, WorkspaceContext,
};
use vstd::prelude::*;

verus! {

/// Longest request that is read, in bytes.
pub const MAX_REQUEST_BYTES: usize = 1048576;

/// How long a request may keep a workspace busy, in milliseconds.
pub const MAX_CONTROL_DURATION_MS: u64 = 600000;

/// Tells a second terminal that the workspace is taken.
pub const ATTACHED_TERMINAL_ERROR: &'static str = "workspace already has an attached terminal";

/// What in a request takes time.
#[derive(Clone, Copy, Debug, PartialEq, Eq, Structural)]
pub enum Timed {
    PacedInput,
    WaitTimeout,
    CaptureDeadline,
}

/// Why a request is refused.
#[derive(Clone, Copy, Debug, PartialEq, Eq, Structural)]
pub enum ControlError {
    SinglePane,
    NoWindows,
    NoLayout,
    DimensionsOwned,
    TooLong(Timed),
    Ended,
    Attached,
    UntrustedSocket,
    Deadline(DeadlineError),
}

impl Timed {
    /// How it is called.
    pub open spec fn label(self) -> Seq<char> {
        match self {
            Timed::PacedInput => "paced input"@,
            Timed::WaitTimeout => "wait timeout"@,
            Timed::CaptureDeadline => "capture deadline"@,
        }
    }
}

impl ControlError {
    /// What the error says.
    pub open spec fn says(self) -> Seq<char> {
        match self {
            ControlError::SinglePane => "single sessions only contain pane 0"@,
            ControlError::NoWindows => "only workspaces support named windows"@,
            ControlError::NoLayout => "only attached workspaces support pane layout control"@,
            ControlError::DimensionsOwned => "visible workspace dimensions are owned by the attached terminal"@,
            ControlError::TooLong(timed) => timed.label()
                + " exceeds the 10 minute workspace control limit"@,
            ControlError::Ended => "workspace has ended"@,
            ControlError::Attached => ATTACHED_TERMINAL_ERROR@,
            ControlError::UntrustedSocket => "attachment socket must be an owner-only socket in the runtime directory"@,
            ControlError::Deadline(error) => error.says(),
        }
    }

    /// Writes out the error.
    pub fn message(self) -> (message: String)
        ensures
            message@ == self.says(),
    {
        match self {
            ControlError::SinglePane => "single sessions only contain pane 0".to_owned(),
            ControlError::NoWindows => "only workspaces support named windows".to_owned(),
            ControlError::NoLayout => {
                "only attached workspaces support pane layout control".to_owned()
            },
            ControlError::DimensionsOwned => {
                "visible workspace dimensions are owned by the attached terminal".to_owned()
            },
            ControlError::TooLong(timed) => {
                let mut message = match timed {
                    Timed::PacedInput => "paced input".to_owned(),
                    Timed::WaitTimeout => "wait timeout".to_owned(),
                    Timed::CaptureDeadline => "capture deadline".to_owned(),
                };
                message.append(" exceeds the 10 minute workspace control limit");
                message
            },
            ControlError::Ended => "workspace has ended".to_owned(),
            ControlError::Attached => ATTACHED_TERMINAL_ERROR.to_owned(),
            ControlError::UntrustedSocket => {
                "attachment socket must be an owner-only socket in the runtime directory".to_owned()
            },
            ControlError::Deadline(error) => error.message(),
        }
    }
}

/// What a single session is to do for a request. Times are in milliseconds.
#[allow(inconsistent_fields)]
#[derive(Debug)]
pub enum SessionAction {
    Nothing,
    Status,
    Send { input: Vec<Vec<u8>>, pace_ms: u64 },
    Wait { text: String, timeout_ms: u64 },
    /// Capture the screen, then tell the status.
    Show { settle_ms: u64, deadline_ms: u64 },
    Logs { ansi: bool },
    /// Resize. A missing cell size stays as it is.
    Resize { cols: u16, rows: u16, cell_width: Option<u16>, cell_height: Option<u16> },
    Mark { name: String },
    SemanticSnapshot { timeout_ms: u64 },
    Panes,
    Stop,
}

impl SessionAction {
    /// What is told once the session has done it.
    pub open spec fn announces(self) -> Reply {
        match self {
            SessionAction::Nothing => Reply::Plain,
            SessionAction::Status => Reply::Status,
            SessionAction::Send { .. } => Reply::Plain,
            SessionAction::Wait { .. } => Reply::Plain,
            SessionAction::Show { .. } => Reply::Screen,
            SessionAction::Logs { .. } => Reply::Logs,
            SessionAction::Resize { .. } => Reply::Plain,
            SessionAction::Mark { .. } => Reply::Plain,
            SessionAction::SemanticSnapshot { .. } => Reply::SemanticSnapshot,
            SessionAction::Panes => Reply::Panes,
            SessionAction::Stop => Reply::Plain,
        }
    }

    /// What is told once the session has done it.
    pub fn reply(&self) -> (reply: Reply)
        ensures
            reply == self.announces(),
    {
        match self {
            SessionAction::Status => Reply::Status,
            SessionAction::Show { .. } => Reply::Screen,
            SessionAction::Logs { .. } => Reply::Logs,
            SessionAction::SemanticSnapshot { .. } => Reply::SemanticSnapshot,
            SessionAction::Panes => Reply::Panes,
            _ => Reply::Plain,
        }
    }
}

/// The cell size that a session is resized to: what a request leaves out stays as it is.
pub fn resized_cells(
    cell_width: Option<u16>,
    cell_height: Option<u16>,
    status: &SessionStatus,
) -> (cells: (u16, u16))
    ensures
        cells.0 == match cell_width {
            Some(width) => width,
            None => status.cell_width,
        },
        cells.1 == match cell_height {
            Some(height) => height,
            None => status.cell_height,
        },
{
    let width: u16 = match cell_width {
        Some(width) => width,
        None => status.cell_width,
    };
    let height: u16 = match cell_height {
        Some(height) => height,
        None => status.cell_height,
    };
    (width, height)
}

/// Whether a pane number means the only pane of a single session.
pub open spec fn only_pane(pane: Option<PaneId>) -> bool {
    pane matches Some(pane) ==> pane == 0
}

/// What a single session does for a request, or why it refuses it. `now_ms` is the system clock.
pub open spec fn session_action(request: Request, now_ms: u64) -> Result<
    SessionAction,
    ControlError,
> {
    match request {
        Request::Ping => Ok(SessionAction::Nothing),
        Request::Status => Ok(SessionAction::Status),
        Request::Send { input, pace_ms, pane } => if only_pane(pane) {
            Ok(SessionAction::Send { input, pace_ms })
        } else {
            Err(ControlError::SinglePane)
        },
        Request::Wait { text, timeout_ms, pane } => if only_pane(pane) {
            Ok(SessionAction::Wait { text, timeout_ms })
        } else {
            Err(ControlError::SinglePane)
        },
        Request::Show { settle_ms, deadline_ms, pane } => if only_pane(pane) {
            Ok(SessionAction::Show { settle_ms, deadline_ms })
        } else {
            Err(ControlError::SinglePane)
        },
        Request::Logs { ansi } => Ok(SessionAction::Logs { ansi }),
        Request::Resize { cols, rows, cell_width, cell_height } => Ok(
            SessionAction::Resize { cols, rows, cell_width, cell_height },
        ),
        Request::Mark { name } => Ok(SessionAction::Mark { name }),
        Request::SemanticSnapshot { deadline_unix_ms, pane, window } => if window is Some {
            Err(ControlError::NoWindows)
        } else if !only_pane(pane) {
            Err(ControlError::SinglePane)
        } else if deadline_unix_ms <= now_ms {
            Err(ControlError::Deadline(DeadlineError::Expired))
        } else {
            Ok(
                SessionAction::SemanticSnapshot { timeout_ms: (deadline_unix_ms - now_ms) as u64 },
            )
        },
        Request::Panes => Ok(SessionAction::Panes),
        Request::Stop => Ok(SessionAction::Stop),
        Request::Layout { .. }
        | Request::FocusPane { .. }
        | Request::ClosePane { .. }
        | Request::ResizePane { .. }
        | Request::ToggleZoom { .. }
        | Request::Attach { .. }
        | Request::ResizeAttachment { .. } => Err(ControlError::NoLayout),
        _ => Err(ControlError::NoWindows),
    }
}

fn is_only_pane(pane: Option<PaneId>) -> (only: bool)
    ensures
        only == only_pane(pane),
{
    match pane {
        Some(pane) => pane == 0,
        None => true,
    }
}

/// Says what a single session is to do for a request.
pub fn respond(request: Request, now_ms: u64) -> (result: Result<SessionAction, ControlError>)
    ensures
        result == session_action(request, now_ms),
{
    match request {
        Request::Ping => Ok(SessionAction::Nothing),
        Request::Status => Ok(SessionAction::Status),
        Request::Send { input, pace_ms, pane } => {
            if !is_only_pane(pane) {
                return Err(ControlError::SinglePane);
            }
            Ok(SessionAction::Send { input, pace_ms })
        },
        Request::Wait { text, timeout_ms, pane } => {
            if !is_only_pane(pane) {
                return Err(ControlError::SinglePane);
            }
            Ok(SessionAction::Wait { text, timeout_ms })
        },
        Request::Show { settle_ms, deadline_ms, pane } => {
            if !is_only_pane(pane) {
                return Err(ControlError::SinglePane);
            }
            Ok(SessionAction::Show { settle_ms, deadline_ms })
        },
        Request::Logs { ansi } => Ok(SessionAction::Logs { ansi }),
        Request::Resize { cols, rows, cell_width, cell_height } => {
            Ok(SessionAction::Resize { cols, rows, cell_width, cell_height })
        },
        Request::Mark { name } => Ok(SessionAction::Mark { name }),
        Request::SemanticSnapshot { deadline_unix_ms, pane, window } => {
            if window.is_some() {
                return Err(ControlError::NoWindows);
            }
            if !is_only_pane(pane) {
                return Err(ControlError::SinglePane);
            }
            match semantic::remaining(deadline_unix_ms, now_ms) {
                Ok(timeout_ms) => Ok(SessionAction::SemanticSnapshot { timeout_ms }),
                Err(error) => Err(ControlError::Deadline(error)),
            }
        },
        Request::Windows
        | Request::WorkspaceContext { .. }
        | Request::SetTabPosition { .. }
        | Request::MoveWindow { .. }
        | Request::CreateWindow { .. }
        | Request::SelectWindow { .. }
        | Request::RenameWindow { .. }
        | Request::CloseWindow { .. }
        | Request::WindowPanes { .. }
        | Request::WindowLayout { .. }
        | Request::ShowWindow { .. }
        | Request::SendWindow { .. }
        | Request::WaitWindow { .. }
        | Request::LogsWindow { .. }
        | Request::MovePane { .. } => Err(ControlError::NoWindows),
        Request::Panes => Ok(SessionAction::Panes),
        Request::Layout { .. }
        | Request::FocusPane { .. }
        | Request::ClosePane { .. }
        | Request::ResizePane { .. }
        | Request::ToggleZoom { .. }
        | Request::Attach { .. }
        | Request::ResizeAttachment { .. } => Err(ControlError::NoLayout),
        Request::Stop => Ok(SessionAction::Stop),
    }
}

/// The only pane of a single session.
pub fn only_pane_status(status: SessionStatus, title: String) -> (pane: PaneStatus)
    ensures
        pane == (PaneStatus {
            id: 0,
            active: true,
            visible: true,
            state: status.state,
            x: 0,
            y: 0,
            cols: status.cols,
            rows: status.rows,
            title,
            command: status.launch.command,
            cwd: status.launch.cwd,
        }),
{
    PaneStatus {
        id: 0,
        active: true,
        visible: true,
        state: status.state,
        x: 0,
        y: 0,
        cols: status.cols,
        rows: status.rows,
        title,
        command: status.launch.command,
        cwd: status.launch.cwd,
    }
}

/// Which terminal of a workspace is meant.
#[derive(Debug)]
pub enum WorkspaceTarget {
    /// A pane, or the selected one.
    Pane(Option<PaneId>),
    Window(String),
}

/// How a terminal attaches to a workspace.
#[derive(Debug)]
pub struct WorkspaceAttachmentOptions {
    pub id: u64,
    pub cols: u16,
    pub rows: u16,
    pub cell_width: u16,
    pub cell_height: u16,
    pub theme: TerminalTheme,
}

/// What a workspace is to do for a request. Times are in milliseconds.
#[allow(inconsistent_fields)]
#[derive(Debug)]
pub enum WorkspaceAction {
    Nothing,
    Send { target: WorkspaceTarget, input: Vec<Vec<u8>>, pace_ms: u64 },
    Wait { target: WorkspaceTarget, text: String, timeout_ms: u64 },
    Capture { target: WorkspaceTarget, settle_ms: u64, deadline_ms: u64 },
    ActiveLogs { ansi: bool },
    WindowLogs { name: String, ansi: bool },
    Mark { name: String },
    SemanticSnapshot { window: Option<String>, pane: Option<PaneId>, timeout_ms: u64 },
    Context { pane: Option<PaneId> },
    SetTabPosition { position: TabPosition },
    MoveWindow { name: String, index: usize },
    CreateWindow { name: Option<String>, command: Vec<String>, cwd: Option<String> },
    SelectWindow { name: String },
    RenameWindow { name: String, new_name: String },
    CloseWindow { name: String },
    PanesIn { window: Option<String> },
    SetGrid { window: Option<String>, columns: u16, rows: u16, command: Vec<String> },
    MovePane { pane: PaneId, window: String, vertical: bool },
    ResizePane { pane: PaneId, direction: Direction, cells: u16 },
    ToggleZoom { pane: PaneId },
    FocusPane { pane: PaneId },
    ClosePane { pane: PaneId },
    Attach { socket: String, options: WorkspaceAttachmentOptions },
    ResizeAttachment { id: u64, cols: u16, rows: u16, cell_width: u16, cell_height: u16 },
    Stop,
}

/// What is told after a workspace has done what it was asked.
#[derive(Clone, Copy, Debug, PartialEq, Eq, Structural)]
pub enum Reply {
    Plain,
    Status,
    /// The captured screen, and the status at the same moment.
    Screen,
    Logs,
    SemanticSnapshot,
    Windows,
    Context,
    /// The panes that the action told.
    Panes,
    /// The panes of the selected window, asked for after the action.
    SelectedPanes,
}

/// What the workspace must be for an action, looked at after its terminal was given a turn.
#[derive(Clone, Copy, Debug, PartialEq, Eq, Structural)]
pub enum Liveness {
    Any,
    /// It still has a window.
    Open,
    /// It still has a window and no terminal is attached.
    Attachable,
}

/// How a workspace serves a request: whether its terminal gets a turn first, what must hold then,
/// what is done and what is told.
#[derive(Debug)]
pub struct WorkspacePlan {
    pub tick: bool,
    pub liveness: Liveness,
    pub action: WorkspaceAction,
    pub reply: Reply,
}

/// How long paced input takes: a pause between each two bursts.
pub open spec fn paced_duration(bursts: nat, pace_ms: u64) -> u64 {
    if bursts <= 1 {
        0
    } else if pace_ms * (bursts - 1) > u64::MAX {
        u64::MAX
    } else {
        (pace_ms * (bursts - 1)) as u64
    }
}

/// A plan without a turn of the terminal.
pub open spec fn direct(action: WorkspaceAction, reply: Reply) -> WorkspacePlan {
    WorkspacePlan { tick: false, liveness: Liveness::Any, action, reply }
}

/// A plan with a turn of the terminal first.
pub open spec fn ticked(liveness: Liveness, action: WorkspaceAction, reply: Reply) -> WorkspacePlan {
    WorkspacePlan { tick: true, liveness, action, reply }
}

/// A plan that may take so long, or the refusal of one that would take too long.
pub open spec fn bounded(timed: Timed, duration_ms: u64, plan: WorkspacePlan) -> Result<
    WorkspacePlan,
    ControlError,
> {
    if duration_ms > MAX_CONTROL_DURATION_MS {
        Err(ControlError::TooLong(timed))
    } else {
        Ok(plan)
    }
}

/// How a workspace serves a request, or why it refuses it. `now_ms` is the system clock.
pub open spec fn workspace_plan(request: Request, now_ms: u64) -> Result<
    WorkspacePlan,
    ControlError,
> {
    match request {
        Request::Ping => Ok(direct(WorkspaceAction::Nothing, Reply::Plain)),
        Request::Status => Ok(direct(WorkspaceAction::Nothing, Reply::Status)),
        Request::Send { input, pace_ms, pane } => bounded(
            Timed::PacedInput,
            paced_duration(input@.len(), pace_ms),
            direct(
                WorkspaceAction::Send { target: WorkspaceTarget::Pane(pane), input, pace_ms },
                Reply::Plain,
            ),
        ),
        Request::SendWindow { name, input, pace_ms } => bounded(
            Timed::PacedInput,
            paced_duration(input@.len(), pace_ms),
            direct(
                WorkspaceAction::Send { target: WorkspaceTarget::Window(name), input, pace_ms },
                Reply::Plain,
            ),
        ),
        Request::Wait { text, timeout_ms, pane } => bounded(
            Timed::WaitTimeout,
            timeout_ms,
            direct(
                WorkspaceAction::Wait { target: WorkspaceTarget::Pane(pane), text, timeout_ms },
                Reply::Plain,
            ),
        ),
        Request::WaitWindow { name, text, timeout_ms } => bounded(
            Timed::WaitTimeout,
            timeout_ms,
            direct(
                WorkspaceAction::Wait { target: WorkspaceTarget::Window(name), text, timeout_ms },
                Reply::Plain,
            ),
        ),
        Request::Show { settle_ms, deadline_ms, pane } => bounded(
            Timed::CaptureDeadline,
            deadline_ms,
            direct(
                WorkspaceAction::Capture {
                    target: WorkspaceTarget::Pane(pane),
                    settle_ms,
                    deadline_ms,
                },
                Reply::Screen,
            ),
        ),
        Request::ShowWindow { name, settle_ms, deadline_ms } => bounded(
            Timed::CaptureDeadline,
            deadline_ms,
            direct(
                WorkspaceAction::Capture {
                    target: WorkspaceTarget::Window(name),
                    settle_ms,
                    deadline_ms,
                },
                Reply::Screen,
            ),
        ),
        Request::Logs { ansi } => Ok(direct(WorkspaceAction::ActiveLogs { ansi }, Reply::Logs)),
        Request::LogsWindow { name, ansi } => Ok(
            direct(WorkspaceAction::WindowLogs { name, ansi }, Reply::Logs),
        ),
        Request::Resize { .. } => Err(ControlError::DimensionsOwned),
        Request::Mark { name } => Ok(direct(WorkspaceAction::Mark { name }, Reply::Plain)),
        Request::SemanticSnapshot { deadline_unix_ms, pane, window } => if deadline_unix_ms
            <= now_ms {
            Err(ControlError::Deadline(DeadlineError::Expired))
        } else {
            Ok(
                direct(
                    WorkspaceAction::SemanticSnapshot {
                        window,
                        pane,
                        timeout_ms: (deadline_unix_ms - now_ms) as u64,
                    },
                    Reply::SemanticSnapshot,
                ),
            )
        },
        Request::Windows => Ok(direct(WorkspaceAction::Nothing, Reply::Windows)),
        Request::WorkspaceContext { pane } => Ok(
            direct(WorkspaceAction::Context { pane }, Reply::Context),
        ),
        Request::SetTabPosition { position } => Ok(
            direct(WorkspaceAction::SetTabPosition { position }, Reply::Windows),
        ),
        Request::MoveWindow { name, index } => Ok(
            direct(WorkspaceAction::MoveWindow { name, index }, Reply::Windows),
        ),
        Request::RenameWindow { name, new_name } => Ok(
            direct(WorkspaceAction::RenameWindow { name, new_name }, Reply::Windows),
        ),
        Request::CreateWindow { name, command, cwd } => Ok(
            ticked(
                Liveness::Any,
                WorkspaceAction::CreateWindow { name, command, cwd },
                Reply::Windows,
            ),
        ),
        Request::SelectWindow { name } => Ok(
            ticked(Liveness::Any, WorkspaceAction::SelectWindow { name }, Reply::Windows),
        ),
        Request::CloseWindow { name } => Ok(
            ticked(Liveness::Any, WorkspaceAction::CloseWindow { name }, Reply::Windows),
        ),
        Request::WindowPanes { name } => Ok(
            direct(WorkspaceAction::PanesIn { window: Some(name) }, Reply::Panes),
        ),
        Request::Panes => Ok(direct(WorkspaceAction::PanesIn { window: None }, Reply::Panes)),
        Request::WindowLayout { name, columns, rows, command } => Ok(
            ticked(
                Liveness::Any,
                WorkspaceAction::SetGrid { window: Some(name), columns, rows, command },
                Reply::Panes,
            ),
        ),
        Request::Layout { columns, rows, command } => Ok(
            ticked(
                Liveness::Open,
                WorkspaceAction::SetGrid { window: None, columns, rows, command },
                Reply::Panes,
            ),
        ),
        Request::MovePane { pane, window, vertical } => Ok(
            ticked(
                Liveness::Any,
                WorkspaceAction::MovePane { pane, window, vertical },
                Reply::Windows,
            ),
        ),
        Request::ResizePane { pane, direction, cells } => Ok(
            ticked(
                Liveness::Any,
                WorkspaceAction::ResizePane { pane, direction, cells },
                Reply::Panes,
            ),
        ),
        Request::ToggleZoom { pane } => Ok(
            ticked(Liveness::Any, WorkspaceAction::ToggleZoom { pane }, Reply::Panes),
        ),
        Request::FocusPane { pane } => Ok(
            ticked(Liveness::Open, WorkspaceAction::FocusPane { pane }, Reply::SelectedPanes),
        ),
        Request::ClosePane { pane } => Ok(
            ticked(Liveness::Open, WorkspaceAction::ClosePane { pane }, Reply::SelectedPanes),
        ),
        Request::Attach { id, socket, cols, rows, cell_width, cell_height, theme } => Ok(
            ticked(
                Liveness::Attachable,
                WorkspaceAction::Attach {
                    socket,
                    options: WorkspaceAttachmentOptions {
                        id,
                        cols,
                        rows,
                        cell_width,
                        cell_height,
                        theme,
                    },
                },
                Reply::Plain,
            ),
        ),
        Request::ResizeAttachment { id, cols, rows, cell_width, cell_height } => Ok(
            direct(
                WorkspaceAction::ResizeAttachment { id, cols, rows, cell_width, cell_height },
                Reply::Plain,
            ),
        ),
        Request::Stop => Ok(direct(WorkspaceAction::Stop, Reply::Plain)),
    }
}

/// Refuses what would keep a workspace busy for too long.
pub fn require_control_duration(timed: Timed, milliseconds: u64) -> (result: Result<
    (),
    ControlError,
>)
    ensures
        result == if milliseconds > MAX_CONTROL_DURATION_MS {
            Err::<(), ControlError>(ControlError::TooLong(timed))
        } else {
            Ok(())
        },
{
    if milliseconds > MAX_CONTROL_DURATION_MS {
        return Err(ControlError::TooLong(timed));
    }
    Ok(())
}

fn paced_milliseconds(bursts: usize, pace_ms: u64) -> (duration: u64)
    ensures
        duration == paced_duration(bursts as nat, pace_ms),
{
    if bursts <= 1 {
        assert(pace_ms * 0 == 0);
        return 0;
    }
    let pauses: u64 = (bursts - 1) as u64;
    match pace_ms.checked_mul(pauses) {
        Some(duration) => duration,
        None => u64::MAX,
    }
}

fn direct_plan(action: WorkspaceAction, reply: Reply) -> (plan: WorkspacePlan)
    ensures
        plan == direct(action, reply),
{
    WorkspacePlan { tick: false, liveness: Liveness::Any, action, reply }
}

fn ticked_plan(liveness: Liveness, action: WorkspaceAction, reply: Reply) -> (plan: WorkspacePlan)
    ensures
        plan == ticked(liveness, action, reply),
{
    WorkspacePlan { tick: true, liveness, action, reply }
}

fn bounded_plan(timed: Timed, duration_ms: u64, plan: WorkspacePlan) -> (result: Result<
    WorkspacePlan,
    ControlError,
>)
    ensures
        result == bounded(timed, duration_ms, plan),
{
    match require_control_duration(timed, duration_ms) {
        Ok(()) => Ok(plan),
        Err(error) => Err(error),
    }
}

/// Says how a workspace is to serve a request.
pub fn respond_workspace(request: Request, now_ms: u64) -> (result: Result<
    WorkspacePlan,
    ControlError,
>)
    ensures
        result == workspace_plan(request, now_ms),
{
    match request {
        Request::Ping => Ok(direct_plan(WorkspaceAction::Nothing, Reply::Plain)),
        Request::Status => Ok(direct_plan(WorkspaceAction::Nothing, Reply::Status)),
        Request::Send { input, pace_ms, pane } => {
            let duration: u64 = paced_milliseconds(input.len(), pace_ms);
            let action = WorkspaceAction::Send {
                target: WorkspaceTarget::Pane(pane),
                input,
                pace_ms,
            };
            bounded_plan(Timed::PacedInput, duration, direct_plan(action, Reply::Plain))
        },
        Request::SendWindow { name, input, pace_ms } => {
            let duration: u64 = paced_milliseconds(input.len(), pace_ms);
            let action = WorkspaceAction::Send {
                target: WorkspaceTarget::Window(name),
                input,
                pace_ms,
            };
            bounded_plan(Timed::PacedInput, duration, direct_plan(action, Reply::Plain))
        },
        Request::Wait { text, timeout_ms, pane } => {
            let action = WorkspaceAction::Wait {
                target: WorkspaceTarget::Pane(pane),
                text,
                timeout_ms,
            };
            bounded_plan(Timed::WaitTimeout, timeout_ms, direct_plan(action, Reply::Plain))
        },
        Request::WaitWindow { name, text, timeout_ms } => {
            let action = WorkspaceAction::Wait {
                target: WorkspaceTarget::Window(name),
                text,
                timeout_ms,
            };
            bounded_plan(Timed::WaitTimeout, timeout_ms, direct_plan(action, Reply::Plain))
        },
        Request::Show { settle_ms, deadline_ms, pane } => {
            let action = WorkspaceAction::Capture {
                target: WorkspaceTarget::Pane(pane),
                settle_ms,
                deadline_ms,
            };
            bounded_plan(Timed::CaptureDeadline, deadline_ms, direct_plan(action, Reply::Screen))
        },
        Request::ShowWindow { name, settle_ms, deadline_ms } => {
            let action = WorkspaceAction::Capture {
                target: WorkspaceTarget::Window(name),
                settle_ms,
                deadline_ms,
            };
            bounded_plan(Timed::CaptureDeadline, deadline_ms, direct_plan(action, Reply::Screen))
        },
        Request::Logs { ansi } => {
            Ok(direct_plan(WorkspaceAction::ActiveLogs { ansi }, Reply::Logs))
        },
        Request::LogsWindow { name, ansi } => {
            Ok(direct_plan(WorkspaceAction::WindowLogs { name, ansi }, Reply::Logs))
        },
        Request::Resize { .. } => Err(ControlError::DimensionsOwned),
        Request::Mark { name } => Ok(direct_plan(WorkspaceAction::Mark { name }, Reply::Plain)),
        Request::SemanticSnapshot { deadline_unix_ms, pane, window } => {
            match semantic::remaining(deadline_unix_ms, now_ms) {
                Ok(timeout_ms) => {
                    let action = WorkspaceAction::SemanticSnapshot { window, pane, timeout_ms };
                    Ok(direct_plan(action, Reply::SemanticSnapshot))
                },
                Err(error) => Err(ControlError::Deadline(error)),
            }
        },
        Request::Windows => Ok(direct_plan(WorkspaceAction::Nothing, Reply::Windows)),
        Request::WorkspaceContext { pane } => {
            Ok(direct_plan(WorkspaceAction::Context { pane }, Reply::Context))
        },
        Request::SetTabPosition { position } => {
            Ok(direct_plan(WorkspaceAction::SetTabPosition { position }, Reply::Windows))
        },
        Request::MoveWindow { name, index } => {
            Ok(direct_plan(WorkspaceAction::MoveWindow { name, index }, Reply::Windows))
        },
        Request::RenameWindow { name, new_name } => {
            Ok(direct_plan(WorkspaceAction::RenameWindow { name, new_name }, Reply::Windows))
        },
        Request::CreateWindow { name, command, cwd } => {
            let action = WorkspaceAction::CreateWindow { name, command, cwd };
            Ok(ticked_plan(Liveness::Any, action, Reply::Windows))
        },
        Request::SelectWindow { name } => {
            Ok(ticked_plan(Liveness::Any, WorkspaceAction::SelectWindow { name }, Reply::Windows))
        },
        Request::CloseWindow { name } => {
            Ok(ticked_plan(Liveness::Any, WorkspaceAction::CloseWindow { name }, Reply::Windows))
        },
        Request::WindowPanes { name } => {
            Ok(direct_plan(WorkspaceAction::PanesIn { window: Some(name) }, Reply::Panes))
        },
        Request::Panes => Ok(direct_plan(WorkspaceAction::PanesIn { window: None }, Reply::Panes)),
        Request::WindowLayout { name, columns, rows, command } => {
            let action = WorkspaceAction::SetGrid { window: Some(name), columns, rows, command };
            Ok(ticked_plan(Liveness::Any, action, Reply::Panes))
        },
        Request::Layout { columns, rows, command } => {
            let action = WorkspaceAction::SetGrid { window: None, columns, rows, command };
            Ok(ticked_plan(Liveness::Open, action, Reply::Panes))
        },
        Request::MovePane { pane, window, vertical } => {
            let action = WorkspaceAction::MovePane { pane, window, vertical };
            Ok(ticked_plan(Liveness::Any, action, Reply::Windows))
        },
        Request::ResizePane { pane, direction, cells } => {
            let action = WorkspaceAction::ResizePane { pane, direction, cells };
            Ok(ticked_plan(Liveness::Any, action, Reply::Panes))
        },
        Request::ToggleZoom { pane } => {
            Ok(ticked_plan(Liveness::Any, WorkspaceAction::ToggleZoom { pane }, Reply::Panes))
        },
        Request::FocusPane { pane } => {
            let action = WorkspaceAction::FocusPane { pane };
            Ok(ticked_plan(Liveness::Open, action, Reply::SelectedPanes))
        },
        Request::ClosePane { pane } => {
            let action = WorkspaceAction::ClosePane { pane };
            Ok(ticked_plan(Liveness::Open, action, Reply::SelectedPanes))
        },
        Request::Attach { id, socket, cols, rows, cell_width, cell_height, theme } => {
            let options = WorkspaceAttachmentOptions {
                id,
                cols,
                rows,
                cell_width,
                cell_height,
                theme,
            };
            let action = WorkspaceAction::Attach { socket, options };
            Ok(ticked_plan(Liveness::Attachable, action, Reply::Plain))
        },
        Request::ResizeAttachment { id, cols, rows, cell_width, cell_height } => {
            let action = WorkspaceAction::ResizeAttachment {
                id,
                cols,
                rows,
                cell_width,
                cell_height,
            };
            Ok(direct_plan(action, Reply::Plain))
        },
        Request::Stop => Ok(direct_plan(WorkspaceAction::Stop, Reply::Plain)),
    }
}

impl Liveness {
    /// What stands against an action in a workspace with these properties.
    pub open spec fn refusal(self, empty: bool, finished: bool, attached: bool) -> Option<
        ControlError,
    > {
        match self {
            Liveness::Any => None,
            Liveness::Open => if empty {
                Some(ControlError::Ended)
            } else {
                None
            },
            Liveness::Attachable => if finished || empty {
                Some(ControlError::Ended)
            } else if attached {
                Some(ControlError::Attached)
            } else {
                None
            },
        }
    }

    /// Looks, after the terminal's turn, whether the workspace is what the action needs.
    pub fn check(self, empty: bool, finished: bool, attached: bool) -> (result: Result<
        (),
        ControlError,
    >)
        ensures
            result == match self.refusal(empty, finished, attached) {
                Some(error) => Err::<(), ControlError>(error),
                None => Ok(()),
            },
    {
        match self {
            Liveness::Any => Ok(()),
            Liveness::Open => {
                if empty {
                    return Err(ControlError::Ended);
                }
                Ok(())
            },
            Liveness::Attachable => {
                if finished || empty {
                    return Err(ControlError::Ended);
                }
                if attached {
                    return Err(ControlError::Attached);
                }
                Ok(())
            },
        }
    }
}

/// Refuses an attachment socket that is not an owner-only socket in the runtime directory.
pub fn check_attachment_socket(in_runtime_dir: bool, facts: SocketFacts, euid: u32) -> (result:
    Result<(), ControlError>)
    ensures
        result == if in_runtime_dir && facts.trusted(euid) {
            Ok::<(), ControlError>(())
        } else {
            Err(ControlError::UntrustedSocket)
        },
{
    if !in_runtime_dir || !facts.is_trusted(euid) {
        return Err(ControlError::UntrustedSocket);
    }
    Ok(())
}

/// What came of serving a request.
#[derive(Debug)]
pub enum Outcome {
    Done,
    Status(SessionStatus),
    Screen(Shot, SessionStatus),
    Logs(Vec<u8>),
    SemanticSnapshot(serde_json::Value),
    Windows(Vec<WindowStatus>),
    Context(WorkspaceContext),
    Panes(Vec<PaneStatus>),
    Failed(String),
}

impl Outcome {
    /// Whether this is what `reply` announces.
    pub open spec fn fulfils(&self, reply: Reply) -> bool {
        match reply {
            Reply::Plain => *self is Done,
            Reply::Status => *self is Status,
            Reply::Screen => *self is Screen,
            Reply::Logs => *self is Logs,
            Reply::SemanticSnapshot => *self is SemanticSnapshot,
            Reply::Windows => *self is Windows,
            Reply::Context => *self is Context,
            Reply::Panes | Reply::SelectedPanes => *self is Panes,
        }
    }
}

/// What an action has brought.
#[derive(Debug)]
pub enum Given {
    Nothing,
    Shot(Shot),
    Logs(Vec<u8>),
    Snapshot(serde_json::Value),
    Context(WorkspaceContext),
    Panes(Vec<PaneStatus>),
}

/// What is looked up after an action, to be told with it.
#[derive(Clone, Copy, Debug, PartialEq, Eq, Structural)]
pub enum Lookup {
    Nothing,
    Status,
    Windows,
    /// The panes of the selected window.
    Panes,
}

/// What was looked up.
#[derive(Debug)]
pub enum LookedUp {
    Nothing,
    Status(SessionStatus),
    Windows(Vec<WindowStatus>),
    Panes(Vec<PaneStatus>),
}

impl Reply {
    /// What is to be looked up for this reply.
    pub open spec fn looks_up(self) -> Lookup {
        match self {
            Reply::Status | Reply::Screen => Lookup::Status,
            Reply::Windows => Lookup::Windows,
            Reply::SelectedPanes => Lookup::Panes,
            _ => Lookup::Nothing,
        }
    }

    /// What is to be looked up for this reply.
    pub fn lookup(self) -> (lookup: Lookup)
        ensures
            lookup == self.looks_up(),
    {
        match self {
            Reply::Status | Reply::Screen => Lookup::Status,
            Reply::Windows => Lookup::Windows,
            Reply::SelectedPanes => Lookup::Panes,
            Reply::Plain
            | Reply::Logs
            | Reply::SemanticSnapshot
            | Reply::Context
            | Reply::Panes => Lookup::Nothing,
        }
    }
}

/// Says that an action did not bring what is to be told of it.
pub const NOTHING_TO_TELL: &'static str = "request brought nothing to tell";

/// What came of a request that was carried out: what its reply tells, taken from what the action
/// brought and what was looked up.
pub open spec fn concluded(reply: Reply, given: Given, found: LookedUp) -> Option<Outcome> {
    match (reply, given, found) {
        (Reply::Plain, _, _) => Some(Outcome::Done),
        (Reply::Status, _, LookedUp::Status(status)) => Some(Outcome::Status(status)),
        (Reply::Screen, Given::Shot(shot), LookedUp::Status(status)) => Some(
            Outcome::Screen(shot, status),
        ),
        (Reply::Logs, Given::Logs(logs), _) => Some(Outcome::Logs(logs)),
        (Reply::SemanticSnapshot, Given::Snapshot(value), _) => Some(
            Outcome::SemanticSnapshot(value),
        ),
        (Reply::Windows, _, LookedUp::Windows(windows)) => Some(Outcome::Windows(windows)),
        (Reply::Context, Given::Context(context), _) => Some(Outcome::Context(context)),
        (Reply::Panes, Given::Panes(panes), _) => Some(Outcome::Panes(panes)),
        (Reply::SelectedPanes, _, LookedUp::Panes(panes)) => Some(Outcome::Panes(panes)),
        _ => None,
    }
}

/// What came of a request that was carried out.
pub fn conclude(reply: Reply, given: Given, found: LookedUp) -> (outcome: Outcome)
    ensures
        match concluded(reply, given, found) {
            Some(meant) => outcome == meant,
            None => outcome is Failed && outcome->Failed_0@ == NOTHING_TO_TELL@,
        },
{
    match (reply, given, found) {
        (Reply::Plain, _, _) => Outcome::Done,
        (Reply::Status, _, LookedUp::Status(status)) => Outcome::Status(status),
        (Reply::Screen, Given::Shot(shot), LookedUp::Status(status)) => Outcome::Screen(shot, status),
        (Reply::Logs, Given::Logs(logs), _) => Outcome::Logs(logs),
        (Reply::SemanticSnapshot, Given::Snapshot(value), _) => Outcome::SemanticSnapshot(value),
        (Reply::Windows, _, LookedUp::Windows(windows)) => Outcome::Windows(windows),
        (Reply::Context, Given::Context(context), _) => Outcome::Context(context),
        (Reply::Panes, Given::Panes(panes), _) => Outcome::Panes(panes),
        (Reply::SelectedPanes, _, LookedUp::Panes(panes)) => Outcome::Panes(panes),
        _ => Outcome::Failed(NOTHING_TO_TELL.to_owned()),
    }
}

/// What came of a request is what its reply announces.
pub proof fn lemma_reply_is_kept(reply: Reply, given: Given, found: LookedUp)
    ensures
        concluded(reply, given, found) matches Some(outcome) ==> outcome.fulfils(reply)
            && told(outcome).error is None,
{
}

/// A single session answers a status request with its status alone, a capture with the screen and
/// the status, and everything that only changes it with nothing but success.
pub proof fn lemma_session_answers(request: Request, now_ms: u64, given: Given, found: LookedUp)
    requires
        session_action(request, now_ms) is Ok,
        concluded(session_action(request, now_ms)->Ok_0.announces(), given, found) is Some,
    ensures
        ({
            let plain = crate::session::plain_response();
            let response = told(
                concluded(session_action(request, now_ms)->Ok_0.announces(), given, found)->0,
            );
            match request {
                Request::Status => found is Status && response == (Response {
                    status: Some(found->Status_0),
                    ..plain
                }),
                Request::Show { .. } => given is Shot && found is Status && response == (Response {
                    captured: Some(given->Shot_0),
                    status: Some(found->Status_0),
                    ..plain
                }),
                Request::Logs { .. } => given is Logs && response == (Response {
                    logs: Some(given->Logs_0),
                    ..plain
                }),
                Request::SemanticSnapshot { .. } => given is Snapshot && response == (Response {
                    semantic_snapshot: Some(SemanticSnapshotResult { value: given->Snapshot_0 }),
                    ..plain
                }),
                Request::Panes => given is Panes && response == (Response {
                    panes: Some(given->Panes_0),
                    ..plain
                }),
                _ => response == plain,
            }
        }),
{
}

/// The answer that tells an outcome.
pub open spec fn told(outcome: Outcome) -> Response {
    let plain = crate::session::plain_response();
    match outcome {
        Outcome::Done => plain,
        Outcome::Status(status) => Response { status: Some(status), ..plain },
        Outcome::Screen(shot, status) => Response {
            captured: Some(shot),
            status: Some(status),
            ..plain
        },
        Outcome::Logs(logs) => Response { logs: Some(logs), ..plain },
        Outcome::SemanticSnapshot(value) => Response {
            semantic_snapshot: Some(SemanticSnapshotResult { value }),
            ..plain
        },
        Outcome::Windows(windows) => Response { windows: Some(windows), ..plain },
        Outcome::Context(context) => Response { context: Some(context), ..plain },
        Outcome::Panes(panes) => Response { panes: Some(panes), ..plain },
        Outcome::Failed(error) => Response { error: Some(error), ..plain },
    }
}

/// Writes the answer that tells an outcome.
pub fn answer(outcome: Outcome) -> (response: Response)
    ensures
        response == told(outcome),
{
    let mut response = Response::default();
    match outcome {
        Outcome::Done => {},
        Outcome::Status(status) => {
            response.status = Some(status);
        },
        Outcome::Screen(shot, status) => {
            response.captured = Some(shot);
            response.status = Some(status);
        },
        Outcome::Logs(logs) => {
            response.logs = Some(logs);
        },
        Outcome::SemanticSnapshot(value) => {
            response.semantic_snapshot = Some(SemanticSnapshotResult { value });
        },
        Outcome::Windows(windows) => {
            response.windows = Some(windows);
        },
        Outcome::Context(context) => {
            response.context = Some(context);
        },
        Outcome::Panes(panes) => {
            response.panes = Some(panes);
        },
        Outcome::Failed(error) => {
            response.error = Some(error);
        },
    }
    response
}

/// A screen is told together with the status of the same moment.
pub proof fn lemma_screen_comes_with_status(request: Request, now_ms: u64, outcome: Outcome)
    requires
        request is Show || request is ShowWindow,
        workspace_plan(request, now_ms) is Ok,
        outcome.fulfils(workspace_plan(request, now_ms)->Ok_0.reply),
    ensures
        told(outcome).error is None,
        told(outcome).captured is Some,
        told(outcome).status is Some,
{
}

/// A refusal is told as an error of the current protocol version, and nothing else is told.
pub proof fn lemma_refusal_tells_only_the_error(error: String)
    ensures
        told(Outcome::Failed(error)).error == Some(error),
        told(Outcome::Failed(error)).protocol_version == crate::session::CURRENT_PROTOCOL_VERSION,
        told(Outcome::Failed(error)).captured is None,
        told(Outcome::Failed(error)).status is None,
        told(Outcome::Failed(error)).panes is None,
        told(Outcome::Failed(error)).windows is None,
{
}

/// What a workspace does takes at most ten minutes of waiting, whatever it is asked.
pub proof fn lemma_control_is_bounded(request: Request, now_ms: u64)
    ensures
        workspace_plan(request, now_ms) matches Ok(plan) ==> match plan.action {
            WorkspaceAction::Send { input, pace_ms, .. } => paced_duration(input@.len(), pace_ms)
                <= MAX_CONTROL_DURATION_MS,
            WorkspaceAction::Wait { timeout_ms, .. } => timeout_ms <= MAX_CONTROL_DURATION_MS,
            WorkspaceAction::Capture { deadline_ms, .. } => deadline_ms <= MAX_CONTROL_DURATION_MS,
            _ => true,
        },
{
}

/// A workspace that has no window left is not changed any more by the requests that lay out its
/// panes, and a workspace that has a terminal takes no second one.
pub proof fn lemma_ended_workspace_is_left_alone(
    request: Request,
    now_ms: u64,
    finished: bool,
    attached: bool,
)
    requires
        request is Layout || request is FocusPane || request is ClosePane || request is Attach,
    ensures
        workspace_plan(request, now_ms) is Ok,
        workspace_plan(request, now_ms)->Ok_0.tick,
        workspace_plan(request, now_ms)->Ok_0.liveness.refusal(true, finished, attached) == Some(
            ControlError::Ended,
        ),
        request is Attach ==> workspace_plan(request, now_ms)->Ok_0.liveness.refusal(
            false,
            false,
            true,
        ) == Some(ControlError::Attached),
{
}

impl WorkspaceAction {
    /// Whether the action is one of those that are meant to select a window: selecting one, focusing
    /// a pane and zooming one.
    pub open spec fn selects(self) -> bool {
        self is SelectWindow || self is FocusPane || self is ToggleZoom
    }

    /// Whether the action is one of those that are meant to end applications: closing a window or a
    /// pane, and stopping.
    pub open spec fn ends_applications(self) -> bool {
        self is CloseWindow || self is ClosePane || self is Stop
    }
}

/// Only requests to select a window, to focus a pane and to zoom one become an action that is meant
/// to select a window. Requests that read, drive, list or arrange a window by its name, or move a
/// pane into it, do not. What an action does to the windows is not told here.
pub proof fn lemma_targeting_does_not_select(request: Request, now_ms: u64)
    ensures
        workspace_plan(request, now_ms) matches Ok(plan) ==> (plan.action.selects() <==> request
            is SelectWindow || request is FocusPane || request is ToggleZoom),
{
}

/// Only requests to close a window or a pane and to stop become an action that is meant to end
/// applications. Requests for a layout, to move a pane or to rename a window do not. What an action
/// does to the panes is not told here.
pub proof fn lemma_only_closing_ends_applications(request: Request, now_ms: u64)
    ensures
        workspace_plan(request, now_ms) matches Ok(plan) ==> (plan.action.ends_applications()
            <==> request is CloseWindow || request is ClosePane || request is Stop),
{
}

/// Who serves a request.
#[derive(Clone, Copy, Debug, PartialEq, Eq, Structural)]
pub enum Subject {
    Session,
    Workspace,
}

impl Subject {
    /// How it is called.
    pub open spec fn word(self) -> Seq<char> {
        match self {
            Subject::Session => "session"@,
            Subject::Workspace => "workspace"@,
        }
    }

    /// How it is called.
    pub fn as_str(self) -> (word: &'static str)
        ensures
            word@ == self.word(),
    {
        match self {
            Subject::Session => "session",
            Subject::Workspace => "workspace",
        }
    }
}

/// A request as it was read: at most one byte more than is allowed.
#[derive(Debug)]
pub enum Incoming {
    /// So many bytes were read. Parsed, if they are not too many, they are a request.
    Parsed { length: usize, request: Request },
    /// So many bytes were read, and they are no request.
    Invalid { length: usize, error: String },
    Failed(String),
}

/// What is done with a request as it was read: it is served, or an error is told.
pub open spec fn admitted(subject: Subject, incoming: Incoming) -> Result<Request, Seq<char>> {
    match incoming {
        Incoming::Parsed { length, request } => if length > MAX_REQUEST_BYTES {
            Err(subject.word() + " request exceeds 1 MiB"@)
        } else {
            Ok(request)
        },
        Incoming::Invalid { length, error } => if length > MAX_REQUEST_BYTES {
            Err(subject.word() + " request exceeds 1 MiB"@)
        } else {
            Err("invalid "@ + subject.word() + " request: "@ + error@)
        },
        Incoming::Failed(error) => Err(
            "failed to read "@ + subject.word() + " request: "@ + error@,
        ),
    }
}

/// Admits a request, or says what is told in its place.
pub fn handle_control(subject: Subject, incoming: Incoming) -> (result: Result<Request, Response>)
    ensures
        match (result, admitted(subject, incoming)) {
            (Ok(request), Ok(admitted)) => request == admitted,
            (Err(response), Err(error)) => response.error is Some && response.error->0@ == error
                && response == told(Outcome::Failed(response.error->0)),
            _ => false,
        },
{
    match incoming {
        Incoming::Failed(error) => {
            let mut message = "failed to read ".to_owned();
            message.append(subject.as_str());
            message.append(" request: ");
            message.append(error.as_str());
            Err(Response::error(message))
        },
        Incoming::Parsed { length, request } => {
            if length > MAX_REQUEST_BYTES {
                let mut message = subject.as_str().to_owned();
                message.append(" request exceeds 1 MiB");
                return Err(Response::error(message));
            }
            Ok(request)
        },
        Incoming::Invalid { length, error } => {
            if length > MAX_REQUEST_BYTES {
                let mut message = subject.as_str().to_owned();
                message.append(" request exceeds 1 MiB");
                return Err(Response::error(message));
            }
            let mut message = "invalid ".to_owned();
            message.append(subject.as_str());
            message.append(" request: ");
            message.append(error.as_str());
            Err(Response::error(message))
        },
    }
}

/// A request that names a window becomes an action on that very window, and a request for a pane, or
/// for the selected one, becomes an action on that. What is to be sent or waited for, and how long,
/// is what the request says.
pub proof fn lemma_named_targets_are_reached(request: Request, now_ms: u64)
    requires
        workspace_plan(request, now_ms) is Ok,
    ensures
        ({
            let action = workspace_plan(request, now_ms)->Ok_0.action;
            match request {
                Request::SendWindow { name, input, pace_ms } => action matches WorkspaceAction::Send {
                    target: WorkspaceTarget::Window(window),
                    input: sent,
                    pace_ms: pace,
                } && window == name && sent == input && pace == pace_ms,
                Request::Send { input, pace_ms, pane } => action matches WorkspaceAction::Send {
                    target: WorkspaceTarget::Pane(target),
                    input: sent,
                    pace_ms: pace,
                } && target == pane && sent == input && pace == pace_ms,
                Request::WaitWindow { name, text, timeout_ms } => action
                    matches WorkspaceAction::Wait {
                    target: WorkspaceTarget::Window(window),
                    text: pattern,
                    timeout_ms: timeout,
                } && window == name && pattern == text && timeout == timeout_ms,
                Request::Wait { text, timeout_ms, pane } => action matches WorkspaceAction::Wait {
                    target: WorkspaceTarget::Pane(target),
                    text: pattern,
                    timeout_ms: timeout,
                } && target == pane && pattern == text && timeout == timeout_ms,
                Request::ShowWindow { name, settle_ms, deadline_ms } => action
                    matches WorkspaceAction::Capture {
                    target: WorkspaceTarget::Window(window),
                    settle_ms: settle,
                    deadline_ms: deadline,
                } && window == name && settle == settle_ms && deadline == deadline_ms,
                Request::Show { settle_ms, deadline_ms, pane } => action
                    matches WorkspaceAction::Capture {
                    target: WorkspaceTarget::Pane(target),
                    settle_ms: settle,
                    deadline_ms: deadline,
                } && target == pane && settle == settle_ms && deadline == deadline_ms,
                Request::LogsWindow { name, ansi } => action matches WorkspaceAction::WindowLogs {
                    name: window,
                    ansi: raw,
                } && window == name && raw == ansi,
                Request::Logs { ansi } => action matches WorkspaceAction::ActiveLogs { ansi: raw }
                    && raw == ansi,
                Request::SemanticSnapshot { deadline_unix_ms, pane, window } => action
                    matches WorkspaceAction::SemanticSnapshot {
                    window: of_window,
                    pane: of_pane,
                    timeout_ms,
                } && of_window == window && of_pane == pane && now_ms + timeout_ms
                    == deadline_unix_ms,
                Request::WindowPanes { name } => action matches WorkspaceAction::PanesIn {
                    window: Some(window),
                } && window == name,
                Request::Panes => action == (WorkspaceAction::PanesIn { window: None }),
                Request::WorkspaceContext { pane } => action matches WorkspaceAction::Context {
                    pane: target,
                } && target == pane,
                _ => !(action is Send || action is Wait || action is Capture || action is WindowLogs
                    || action is ActiveLogs || action is SemanticSnapshot || action is PanesIn
                    || action is Context),
            }
        }),
{
}

/// A request that arranges windows or panes becomes that arrangement of the very windows and panes
/// that it names.
pub proof fn lemma_arrangements_are_what_is_asked(request: Request, now_ms: u64)
    requires
        workspace_plan(request, now_ms) is Ok,
    ensures
        ({
            let action = workspace_plan(request, now_ms)->Ok_0.action;
            match request {
                Request::SelectWindow { name } => action matches WorkspaceAction::SelectWindow {
                    name: window,
                } && window == name,
                Request::CloseWindow { name } => action matches WorkspaceAction::CloseWindow {
                    name: window,
                } && window == name,
                Request::RenameWindow { name, new_name } => action
                    matches WorkspaceAction::RenameWindow { name: window, new_name: becomes }
                    && window == name && becomes == new_name,
                Request::MoveWindow { name, index } => action matches WorkspaceAction::MoveWindow {
                    name: window,
                    index: to,
                } && window == name && to == index,
                Request::CreateWindow { name, command, cwd } => action
                    matches WorkspaceAction::CreateWindow {
                    name: window,
                    command: runs,
                    cwd: within,
                } && window == name && runs == command && within == cwd,
                Request::WindowLayout { name, columns, rows, command } => action
                    matches WorkspaceAction::SetGrid {
                    window: Some(window),
                    columns: across,
                    rows: down,
                    command: runs,
                } && window == name && across == columns && down == rows && runs == command,
                Request::Layout { columns, rows, command } => action
                    matches WorkspaceAction::SetGrid {
                    window: None,
                    columns: across,
                    rows: down,
                    command: runs,
                } && across == columns && down == rows && runs == command,
                Request::MovePane { pane, window, vertical } => action
                    matches WorkspaceAction::MovePane {
                    pane: moved,
                    window: into,
                    vertical: upright,
                } && moved == pane && into == window && upright == vertical,
                Request::ResizePane { pane, direction, cells } => action
                    matches WorkspaceAction::ResizePane {
                    pane: resized,
                    direction: to,
                    cells: by,
                } && resized == pane && to == direction && by == cells,
                Request::ToggleZoom { pane } => action matches WorkspaceAction::ToggleZoom {
                    pane: zoomed,
                } && zoomed == pane,
                Request::FocusPane { pane } => action matches WorkspaceAction::FocusPane {
                    pane: focused,
                } && focused == pane,
                Request::ClosePane { pane } => action matches WorkspaceAction::ClosePane {
                    pane: closed,
                } && closed == pane,
                Request::SetTabPosition { position } => action
                    matches WorkspaceAction::SetTabPosition { position: to } && to == position,
                Request::Mark { name } => action matches WorkspaceAction::Mark { name: mark }
                    && mark == name,
                Request::Attach { id, socket, cols, rows, cell_width, cell_height, theme } => action
                    matches WorkspaceAction::Attach { socket: through, options } && through
                    == socket && options.id == id && options.cols == cols && options.rows == rows
                    && options.cell_width == cell_width && options.cell_height == cell_height
                    && options.theme == theme,
                Request::ResizeAttachment { id, cols, rows, cell_width, cell_height } => action
                    matches WorkspaceAction::ResizeAttachment {
                    id: of,
                    cols: across,
                    rows: down,
                    cell_width: width,
                    cell_height: height,
                } && of == id && across == cols && down == rows && width == cell_width && height
                    == cell_height,
                Request::Stop => action is Stop,
                Request::Ping | Request::Status | Request::Windows => action is Nothing,
                _ => true,
            }
        }),
{
}

/// A workspace refuses only what it must: a size of its own, which belongs to the attached terminal,
/// input with more than ten minutes of pauses, a wait or a capture of more than ten minutes, and a
/// snapshot whose time is over.
pub proof fn lemma_workspace_refusals(request: Request, now_ms: u64)
    ensures
        ({
            let plan = workspace_plan(request, now_ms);
            match request {
                Request::Resize { .. } => plan == Err::<WorkspacePlan, ControlError>(
                    ControlError::DimensionsOwned,
                ),
                Request::Send { input, pace_ms, .. } | Request::SendWindow {
                    input,
                    pace_ms,
                    ..
                } => if input@.len() > 1 && pace_ms * (input@.len() - 1) > 600_000 {
                    plan == Err::<WorkspacePlan, ControlError>(
                        ControlError::TooLong(Timed::PacedInput),
                    )
                } else {
                    plan is Ok
                },
                Request::Wait { timeout_ms, .. } | Request::WaitWindow { timeout_ms, .. } => if timeout_ms
                    > 600_000 {
                    plan == Err::<WorkspacePlan, ControlError>(
                        ControlError::TooLong(Timed::WaitTimeout),
                    )
                } else {
                    plan is Ok
                },
                Request::Show { deadline_ms, .. } | Request::ShowWindow { deadline_ms, .. } => if deadline_ms
                    > 600_000 {
                    plan == Err::<WorkspacePlan, ControlError>(
                        ControlError::TooLong(Timed::CaptureDeadline),
                    )
                } else {
                    plan is Ok
                },
                Request::SemanticSnapshot { deadline_unix_ms, .. } => if deadline_unix_ms
                    <= now_ms {
                    plan == Err::<WorkspacePlan, ControlError>(
                        ControlError::Deadline(DeadlineError::Expired),
                    )
                } else {
                    plan is Ok
                },
                _ => plan is Ok,
            }
        }),
{
}

/// The terminal of a workspace gets a turn before its windows and panes are made, selected, closed,
/// moved or laid out, and before a terminal attaches. Everything else is done at once, and needs
/// nothing of the workspace.
pub proof fn lemma_turns_come_before_changes(request: Request, now_ms: u64)
    requires
        workspace_plan(request, now_ms) is Ok,
    ensures
        ({
            let plan = workspace_plan(request, now_ms)->Ok_0;
            &&& plan.tick <==> (request is CreateWindow || request is SelectWindow || request
                is CloseWindow || request is WindowLayout || request is Layout || request
                is MovePane || request is ResizePane || request is ToggleZoom || request
                is FocusPane || request is ClosePane || request is Attach)
            &&& plan.liveness is Open <==> (request is Layout || request is FocusPane || request
                is ClosePane)
            &&& plan.liveness is Attachable <==> request is Attach
        }),
{
}

/// What a workspace tells: the status when it is asked for, a screen with the status, logs and
/// snapshots as they were taken, the windows after they were listed or changed, the panes after they
/// were listed or laid out, and nothing but success otherwise.
pub proof fn lemma_workspace_answers(request: Request, now_ms: u64, given: Given, found: LookedUp)
    requires
        workspace_plan(request, now_ms) is Ok,
        concluded(workspace_plan(request, now_ms)->Ok_0.reply, given, found) is Some,
    ensures
        ({
            let plain = crate::session::plain_response();
            let reply = workspace_plan(request, now_ms)->Ok_0.reply;
            let response = told(concluded(reply, given, found)->0);
            match request {
                Request::Status => found is Status && response == (Response {
                    status: Some(found->Status_0),
                    ..plain
                }),
                Request::Show { .. } | Request::ShowWindow { .. } => given is Shot && found
                    is Status && response == (Response {
                    captured: Some(given->Shot_0),
                    status: Some(found->Status_0),
                    ..plain
                }),
                Request::Logs { .. } | Request::LogsWindow { .. } => given is Logs && response == (
                Response { logs: Some(given->Logs_0), ..plain }),
                Request::SemanticSnapshot { .. } => given is Snapshot && response == (Response {
                    semantic_snapshot: Some(SemanticSnapshotResult { value: given->Snapshot_0 }),
                    ..plain
                }),
                Request::WorkspaceContext { .. } => given is Context && response == (Response {
                    context: Some(given->Context_0),
                    ..plain
                }),
                Request::Panes
                | Request::WindowPanes { .. }
                | Request::Layout { .. }
                | Request::WindowLayout { .. }
                | Request::ResizePane { .. }
                | Request::ToggleZoom { .. } => given is Panes && response == (Response {
                    panes: Some(given->Panes_0),
                    ..plain
                }),
                Request::FocusPane { .. } | Request::ClosePane { .. } => found is Panes && response
                    == (Response { panes: Some(found->Panes_0), ..plain }),
                Request::Windows
                | Request::SetTabPosition { .. }
                | Request::MoveWindow { .. }
                | Request::CreateWindow { .. }
                | Request::SelectWindow { .. }
                | Request::RenameWindow { .. }
                | Request::CloseWindow { .. }
                | Request::MovePane { .. } => found is Windows && response == (Response {
                    windows: Some(found->Windows_0),
                    ..plain
                }),
                _ => response == plain,
            }
        }),
{
}

/// What is looked up suffices for what is told: where the action brought what it is asked for, the
/// answer is not an error.
pub proof fn lemma_lookup_suffices(reply: Reply, given: Given, found: LookedUp)
    requires
        match reply.looks_up() {
            Lookup::Nothing => true,
            Lookup::Status => found is Status,
            Lookup::Windows => found is Windows,
            Lookup::Panes => found is Panes,
        },
        reply is Screen ==> given is Shot,
        reply is Logs ==> given is Logs,
        reply is SemanticSnapshot ==> given is Snapshot,
        reply is Context ==> given is Context,
        reply is Panes ==> given is Panes,
    ensures
        concluded(reply, given, found) is Some,
        told(concluded(reply, given, found)->0).error is None,
{
}

/// A single session does what is asked of it, with the request's own values, and it refuses panes
/// that it has not, windows, layouts and snapshots whose time is over.
pub proof fn lemma_session_does_what_is_asked(request: Request, now_ms: u64)
    ensures
        ({
            let result = session_action(request, now_ms);
            match request {
                Request::Ping => result matches Ok(action) && action is Nothing,
                Request::Status => result matches Ok(action) && action is Status,
                Request::Panes => result matches Ok(action) && action is Panes,
                Request::Stop => result matches Ok(action) && action is Stop,
                Request::Send { input, pace_ms, pane } => if pane is Some && pane->0 != 0 {
                    result == Err::<SessionAction, ControlError>(ControlError::SinglePane)
                } else {
                    result matches Ok(SessionAction::Send { input: sent, pace_ms: pace }) && sent
                        == input && pace == pace_ms
                },
                Request::Wait { text, timeout_ms, pane } => if pane is Some && pane->0 != 0 {
                    result == Err::<SessionAction, ControlError>(ControlError::SinglePane)
                } else {
                    result matches Ok(SessionAction::Wait { text: pattern, timeout_ms: timeout })
                        && pattern == text && timeout == timeout_ms
                },
                Request::Show { settle_ms, deadline_ms, pane } => if pane is Some && pane->0 != 0 {
                    result == Err::<SessionAction, ControlError>(ControlError::SinglePane)
                } else {
                    result matches Ok(
                        SessionAction::Show { settle_ms: settle, deadline_ms: deadline },
                    ) && settle == settle_ms && deadline == deadline_ms
                },
                Request::Logs { ansi } => result matches Ok(SessionAction::Logs { ansi: raw }) && raw
                    == ansi,
                Request::Mark { name } => result matches Ok(SessionAction::Mark { name: mark })
                    && mark == name,
                Request::Resize { cols, rows, cell_width, cell_height } => result matches Ok(
                    SessionAction::Resize {
                        cols: across,
                        rows: down,
                        cell_width: width,
                        cell_height: height,
                    },
                ) && across == cols && down == rows && width == cell_width && height
                    == cell_height,
                Request::SemanticSnapshot { deadline_unix_ms, pane, window } => if window is Some {
                    result == Err::<SessionAction, ControlError>(ControlError::NoWindows)
                } else if pane is Some && pane->0 != 0 {
                    result == Err::<SessionAction, ControlError>(ControlError::SinglePane)
                } else if deadline_unix_ms <= now_ms {
                    result == Err::<SessionAction, ControlError>(
                        ControlError::Deadline(DeadlineError::Expired),
                    )
                } else {
                    result matches Ok(SessionAction::SemanticSnapshot { timeout_ms }) && now_ms
                        + timeout_ms == deadline_unix_ms
                },
                Request::Layout { .. }
                | Request::FocusPane { .. }
                | Request::ClosePane { .. }
                | Request::ResizePane { .. }
                | Request::ToggleZoom { .. }
                | Request::Attach { .. }
                | Request::ResizeAttachment { .. } => result == Err::<SessionAction, ControlError>(
                    ControlError::NoLayout,
                ),
                _ => result == Err::<SessionAction, ControlError>(ControlError::NoWindows),
            }
        }),
{
}

/// A request that was read in whole is served as it is exactly if it has at most 1 MiB. Everything
/// else is answered with an error.
pub proof fn lemma_requests_are_admitted(subject: Subject, length: usize, request: Request, error: String)
    ensures
        length <= 1_048_576 ==> admitted(subject, Incoming::Parsed { length, request }) == Ok::<
            Request,
            Seq<char>,
        >(request),
        length > 1_048_576 ==> admitted(subject, Incoming::Parsed { length, request }) is Err,
        admitted(subject, Incoming::Invalid { length, error }) is Err,
        admitted(subject, Incoming::Failed(error)) is Err,
{
}

/// Whether a session stops serving: once it was told to stop and the answer has been written.
pub fn session_finished(stop: bool, written: bool) -> (finished: bool)
    ensures
        finished == (stop && written),
{
    stop && written
}

/// Whether a workspace stops serving: once it was told to stop or has no window left, that was
/// done without an error, and the answer has been written.
pub fn workspace_finished(stop: bool, empty: bool, failed: bool, written: bool) -> (finished: bool)
    ensures
        finished == (written && !failed && (stop || empty)),
{
    written && !failed && (stop || empty)
}

/// How a workspace waits for the next request, in milliseconds.
#[derive(Clone, Copy, Debug, PartialEq, Eq, Structural)]
pub enum Pause {
    /// Stop serving.
    Stop,
    Sleep(u64),
    /// Wait for a request, but not longer.
    Poll(u64),
}

/// How long a detached workspace stays alert after a request, in milliseconds.
pub const DETACHED_WORKSPACE_ACTIVE: u64 = 500;

/// How a workspace waits: briefly while a terminal is attached or soon after a request, otherwise
/// until a request comes.
pub fn workspace_pause(running: bool, finished: bool, attached: bool, active: bool) -> (pause:
    Pause)
    ensures
        pause == if !running || finished {
            Pause::Stop
        } else if attached {
            Pause::Sleep(16)
        } else if active {
            Pause::Sleep(5)
        } else {
            Pause::Poll(50)
        },
{
    if !running || finished {
        Pause::Stop
    } else if attached {
        Pause::Sleep(16)
    } else if active {
        Pause::Sleep(5)
    } else {
        Pause::Poll(50)
    }
}

/// What is told when serving a workspace and ending it failed, or one of them did.
pub fn serve_result(run: Result<(), String>, stop: Result<(), String>) -> (result: Result<
    (),
    String,
>)
    ensures
        match (run, stop) {
            (Ok(()), _) => result == stop,
            (Err(_), Ok(())) => result == run,
            (Err(error), Err(stop_error)) => result is Err && result->Err_0@
                == "workspace finalization also failed: "@ + stop_error@ + ": "@ + error@,
        },
{
    match (run, stop) {
        (Ok(()), stop) => stop,
        (Err(error), Ok(())) => Err(error),
        (Err(error), Err(stop_error)) => {
            let mut message = "workspace finalization also failed: ".to_owned();
            message.append(stop_error.as_str());
            message.append(": ");
            message.append(error.as_str());
            Err(message)
        },
    }
}

/// What a client asks of a window by its name is done to that very window of the workspace, and what
/// it asks of a pane, or of whatever is selected, is done there: the target is neither changed on the
/// way nor taken from what is selected.
pub proof fn lemma_targets_survive_the_way(
    window: Option<String>,
    pane: Option<PaneId>,
    input: Vec<Vec<u8>>,
    text: String,
    first_ms: u64,
    second_ms: u64,
    now_ms: u64,
)
    requires
        !(window is Some && pane is Some),
    ensures
        ({
            let target = crate::session::targeted(window, pane);
            let reached = |meant: WorkspaceTarget|
                match window {
                    Some(name) => meant matches WorkspaceTarget::Window(found) && found == name,
                    None => meant matches WorkspaceTarget::Pane(found) && found == pane,
                };
            &&& workspace_plan(crate::session::sending(target, input, first_ms), now_ms) matches Ok(
                plan,
            ) ==> (plan.action matches WorkspaceAction::Send {
                target: meant,
                input: sent,
                pace_ms,
            } && reached(meant) && sent == input && pace_ms == first_ms)
            &&& workspace_plan(crate::session::waiting(target, text, first_ms), now_ms) matches Ok(
                plan,
            ) ==> (plan.action matches WorkspaceAction::Wait {
                target: meant,
                text: awaited,
                timeout_ms,
            } && reached(meant) && awaited == text && timeout_ms == first_ms)
            &&& workspace_plan(
                crate::session::showing(target, first_ms, second_ms),
                now_ms,
            ) matches Ok(plan) ==> (plan.action matches WorkspaceAction::Capture {
                target: meant,
                settle_ms,
                deadline_ms,
            } && reached(meant) && settle_ms == first_ms && deadline_ms == second_ms)
        }),
{
}

/// Paced input takes a pause between each two bursts, so that it is bounded exactly where those
/// pauses together are.
pub proof fn lemma_pacing_takes_its_pauses(bursts: nat, pace_ms: u64)
    ensures
        bursts == 0 || bursts == 1 ==> paced_duration(bursts, pace_ms) == 0,
        bursts > 1 && pace_ms * (bursts - 1) <= u64::MAX ==> paced_duration(bursts, pace_ms)
            == pace_ms * (bursts - 1),
        bursts > 1 && pace_ms * (bursts - 1) > 600_000 ==> paced_duration(bursts, pace_ms)
            > 600_000,
{
}

} // verus!
