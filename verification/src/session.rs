//! Named terminal sessions: what a client asks of them and how it reads their answers.
use crate::session::daemon::Pruning;
use crate::shot::{ColorMode, Shot};
use crate::terminal_theme::TerminalTheme;
use crate::text;
use crate::workspace::{
    Direction, PaneId, PaneStatus, TabPosition, WindowStatus, WorkspaceContext,
};
use vstd::prelude::*;

pub mod control;
pub mod daemon;
pub mod live;

verus! {

/// Lifecycle state of a running or completed session.
#[derive(Clone, Copy, Debug, PartialEq, Eq, Structural)]
pub enum SessionState {
    Running,
    Exited,
}

/// Termination information observed for a completed terminal application.
#[derive(Debug)]
pub struct ProcessExit {
    pub code: u32,
    pub signal: Option<String>,
    pub success: bool,
}

/// Reason a session capture returned its visible shot.
#[derive(Clone, Copy, Debug, PartialEq, Eq, Structural)]
pub enum CaptureReason {
    Idle,
    Deadline,
    Exited,
    OutputClosed,
}

/// A visible shot together with the condition that made it observable.
#[derive(Debug)]
pub struct CaptureResult {
    pub shot: Shot,
    pub reason: CaptureReason,
}

/// Non-secret launch settings retained for status display and named-session restart.
#[derive(Debug)]
pub struct SessionLaunch {
    pub command: Vec<String>,
    pub cwd: String,
    pub record: Option<String>,
    pub cols: u16,
    pub rows: u16,
    pub cell_width: u16,
    pub cell_height: u16,
    pub max_bytes: usize,
    pub opentui_host: bool,
    pub color: ColorMode,
}

/// Observable state of one embedded or named terminal session.
#[derive(Debug)]
pub struct SessionStatus {
    pub state: SessionState,
    pub exit: Option<ProcessExit>,
    pub cols: u16,
    pub rows: u16,
    pub cell_width: u16,
    pub cell_height: u16,
    pub idle_for_ms: Option<u64>,
    pub has_visible_content: bool,
    pub recording: bool,
    pub logs_truncated: bool,
    pub launch: SessionLaunch,
}

/// Why a named session socket could not report normal status.
#[derive(Clone, Copy, Debug, PartialEq, Eq, Structural)]
pub enum UnavailableReason {
    Stale,
    IncompatibleProtocol,
}

/// One named daemon session discovered in the local runtime directory.
#[derive(Debug)]
pub struct NamedSessionStatus {
    pub name: String,
    pub status: Option<SessionStatus>,
    pub error: Option<String>,
    pub unavailable: Option<UnavailableReason>,
}

/// What was removed in place of a session.
#[derive(Clone, Copy, Debug, PartialEq, Eq, Structural)]
pub enum PruneKind {
    Exited,
    Stale,
}

/// `serde_json::Value`, carried through unread.
#[verifier::external_type_specification]
#[verifier::external_body]
pub struct ExValue(serde_json::Value);

/// What a client asks of a session or a workspace.
#[allow(inconsistent_fields)]
#[derive(Debug)]
pub enum Request {
    Ping,
    Status,
    Wait { text: String, timeout_ms: u64, pane: Option<PaneId> },
    Send { input: Vec<Vec<u8>>, pace_ms: u64, pane: Option<PaneId> },
    Show { settle_ms: u64, deadline_ms: u64, pane: Option<PaneId> },
    Logs { ansi: bool },
    Resize { cols: u16, rows: u16, cell_width: Option<u16>, cell_height: Option<u16> },
    Mark { name: String },
    Windows,
    WorkspaceContext { pane: Option<PaneId> },
    SetTabPosition { position: TabPosition },
    MoveWindow { name: String, index: usize },
    CreateWindow { name: Option<String>, command: Vec<String>, cwd: Option<String> },
    SelectWindow { name: String },
    RenameWindow { name: String, new_name: String },
    CloseWindow { name: String },
    WindowPanes { name: String },
    WindowLayout { name: String, columns: u16, rows: u16, command: Vec<String> },
    ShowWindow { name: String, settle_ms: u64, deadline_ms: u64 },
    SendWindow { name: String, input: Vec<Vec<u8>>, pace_ms: u64 },
    WaitWindow { name: String, text: String, timeout_ms: u64 },
    LogsWindow { name: String, ansi: bool },
    MovePane { pane: PaneId, window: String, vertical: bool },
    ResizePane { pane: PaneId, direction: Direction, cells: u16 },
    ToggleZoom { pane: PaneId },
    Panes,
    Layout { columns: u16, rows: u16, command: Vec<String> },
    FocusPane { pane: PaneId },
    ClosePane { pane: PaneId },
    Attach {
        id: u64,
        socket: String,
        cols: u16,
        rows: u16,
        cell_width: u16,
        cell_height: u16,
        theme: TerminalTheme,
    },
    ResizeAttachment { id: u64, cols: u16, rows: u16, cell_width: u16, cell_height: u16 },
    SemanticSnapshot { deadline_unix_ms: u64, pane: Option<PaneId>, window: Option<String> },
    Stop,
}

/// What a session must be able to do for a request. Later capabilities come with later versions
/// of the control protocol.
#[derive(Clone, Copy, Debug, PartialEq, Eq, Structural)]
pub enum ProtocolCapability {
    Pane,
    Attachment,
    Window,
    LayoutCommand,
    WorkspaceControl,
    Semantic,
}

pub const CONTROL_PROTOCOL_VERSION: u8 = 1;

pub const ATTACH_PROTOCOL_VERSION: u8 = 2;

pub const WINDOW_PROTOCOL_VERSION: u8 = 3;

pub const LAYOUT_COMMAND_PROTOCOL_VERSION: u8 = 4;

pub const WORKSPACE_CONTROL_PROTOCOL_VERSION: u8 = 5;

pub const SEMANTIC_PROTOCOL_VERSION: u8 = 6;

/// Version of the control protocol that this library speaks.
pub const CURRENT_PROTOCOL_VERSION: u8 = SEMANTIC_PROTOCOL_VERSION;

impl ProtocolCapability {
    /// The first protocol version with this capability.
    pub open spec fn since(self) -> u8 {
        match self {
            ProtocolCapability::Pane => CONTROL_PROTOCOL_VERSION,
            ProtocolCapability::Attachment => ATTACH_PROTOCOL_VERSION,
            ProtocolCapability::Window => WINDOW_PROTOCOL_VERSION,
            ProtocolCapability::LayoutCommand => LAYOUT_COMMAND_PROTOCOL_VERSION,
            ProtocolCapability::WorkspaceControl => WORKSPACE_CONTROL_PROTOCOL_VERSION,
            ProtocolCapability::Semantic => SEMANTIC_PROTOCOL_VERSION,
        }
    }

    /// What a session that lacks the capability is told.
    pub open spec fn advice(self) -> Seq<char> {
        match self {
            ProtocolCapability::Pane => "running session predates pane layout control; restart it with the current termctrl"@,
            ProtocolCapability::Attachment => "running workspace predates terminal reattachment; restart it with the current termctrl"@,
            ProtocolCapability::Window => "running workspace predates named windows; restart it with the current termctrl"@,
            ProtocolCapability::LayoutCommand => "running workspace predates pane startup commands; restart it with the current termctrl"@,
            ProtocolCapability::WorkspaceControl => "running workspace predates runtime workspace controls; restart it with the current termctrl"@,
            ProtocolCapability::Semantic => "running session predates semantic snapshots; restart it with the current termctrl"@,
        }
    }

    /// The first protocol version with this capability.
    pub fn version(self) -> (version: u8)
        ensures
            version == self.since(),
    {
        match self {
            ProtocolCapability::Pane => CONTROL_PROTOCOL_VERSION,
            ProtocolCapability::Attachment => ATTACH_PROTOCOL_VERSION,
            ProtocolCapability::Window => WINDOW_PROTOCOL_VERSION,
            ProtocolCapability::LayoutCommand => LAYOUT_COMMAND_PROTOCOL_VERSION,
            ProtocolCapability::WorkspaceControl => WORKSPACE_CONTROL_PROTOCOL_VERSION,
            ProtocolCapability::Semantic => SEMANTIC_PROTOCOL_VERSION,
        }
    }

    /// What to do with a session that lacks the capability.
    pub fn restart_error(self) -> (advice: &'static str)
        ensures
            advice@ == self.advice(),
    {
        match self {
            ProtocolCapability::Pane => {
                "running session predates pane layout control; restart it with the current termctrl"
            },
            ProtocolCapability::Attachment => {
                "running workspace predates terminal reattachment; restart it with the current termctrl"
            },
            ProtocolCapability::Window => {
                "running workspace predates named windows; restart it with the current termctrl"
            },
            ProtocolCapability::LayoutCommand => {
                "running workspace predates pane startup commands; restart it with the current termctrl"
            },
            ProtocolCapability::WorkspaceControl => {
                "running workspace predates runtime workspace controls; restart it with the current termctrl"
            },
            ProtocolCapability::Semantic => {
                "running session predates semantic snapshots; restart it with the current termctrl"
            },
        }
    }

    /// Checks that the session that answered has the capability.
    pub fn require(self, response: &Response) -> (result: Result<(), SessionError>)
        ensures
            result is Ok <==> response.protocol_version >= self.since(),
            result matches Err(error) ==> error == SessionError::RestartRequired(self),
    {
        if response.protocol_version < self.version() {
            Err(SessionError::RestartRequired(self))
        } else {
            Ok(())
        }
    }
}

/// A session that has a capability has every capability of an earlier version.
pub proof fn lemma_capabilities_accumulate(
    later: ProtocolCapability,
    earlier: ProtocolCapability,
    version: u8,
)
    requires
        earlier.since() <= later.since(),
        version >= later.since(),
    ensures
        version >= earlier.since(),
{
}

/// What a request needs.
#[derive(Clone, Copy, Debug, PartialEq, Eq, Structural)]
pub struct RequestRequirements {
    pub capability: Option<ProtocolCapability>,
    pub hold_name_lock: bool,
}

impl Request {
    /// The capability that a request needs, if any.
    pub open spec fn needs(&self) -> Option<ProtocolCapability> {
        match *self {
            Request::Layout { command, .. } => if command@.len() > 0 {
                Some(ProtocolCapability::LayoutCommand)
            } else {
                Some(ProtocolCapability::Pane)
            },
            Request::WindowLayout { command, .. } => if command@.len() > 0 {
                Some(ProtocolCapability::LayoutCommand)
            } else {
                Some(ProtocolCapability::Window)
            },
            Request::WorkspaceContext { .. } | Request::SetTabPosition { .. } | Request::MoveWindow {
                ..
            } => Some(ProtocolCapability::WorkspaceControl),
            Request::Windows
            | Request::CreateWindow { .. }
            | Request::SelectWindow { .. }
            | Request::RenameWindow { .. }
            | Request::CloseWindow { .. }
            | Request::WindowPanes { .. }
            | Request::ShowWindow { .. }
            | Request::SendWindow { .. }
            | Request::WaitWindow { .. }
            | Request::LogsWindow { .. }
            | Request::MovePane { .. }
            | Request::ResizePane { .. }
            | Request::ToggleZoom { .. } => Some(ProtocolCapability::Window),
            Request::Wait { pane, .. } => if pane is Some {
                Some(ProtocolCapability::Pane)
            } else {
                None
            },
            Request::Send { pane, .. } => if pane is Some {
                Some(ProtocolCapability::Pane)
            } else {
                None
            },
            Request::Show { pane, .. } => if pane is Some {
                Some(ProtocolCapability::Pane)
            } else {
                None
            },
            Request::Panes | Request::FocusPane { .. } | Request::ClosePane { .. } => Some(
                ProtocolCapability::Pane,
            ),
            Request::Attach { .. } | Request::ResizeAttachment { .. } => Some(
                ProtocolCapability::Attachment,
            ),
            Request::SemanticSnapshot { .. } => Some(ProtocolCapability::Semantic),
            Request::Ping
            | Request::Status
            | Request::Logs { .. }
            | Request::Resize { .. }
            | Request::Mark { .. }
            | Request::Stop => None,
        }
    }

    /// What a request needs. A session must not be replaced while it is asked to start commands,
    /// so such a request holds the lock on the session's name.
    pub open spec fn required(&self) -> RequestRequirements {
        RequestRequirements {
            capability: self.needs(),
            hold_name_lock: self.needs() == Some(ProtocolCapability::LayoutCommand),
        }
    }

    /// What the request needs.
    pub fn requirements(&self) -> (requirements: RequestRequirements)
        ensures
            requirements == self.required(),
    {
        let capability = match self {
            Request::Layout { command, .. } => if command.len() > 0 {
                ProtocolCapability::LayoutCommand
            } else {
                ProtocolCapability::Pane
            },
            Request::WindowLayout { command, .. } => if command.len() > 0 {
                ProtocolCapability::LayoutCommand
            } else {
                ProtocolCapability::Window
            },
            Request::WorkspaceContext { .. } | Request::SetTabPosition { .. } | Request::MoveWindow {
                ..
            } => ProtocolCapability::WorkspaceControl,
            Request::Windows
            | Request::CreateWindow { .. }
            | Request::SelectWindow { .. }
            | Request::RenameWindow { .. }
            | Request::CloseWindow { .. }
            | Request::WindowPanes { .. }
            | Request::ShowWindow { .. }
            | Request::SendWindow { .. }
            | Request::WaitWindow { .. }
            | Request::LogsWindow { .. }
            | Request::MovePane { .. }
            | Request::ResizePane { .. }
            | Request::ToggleZoom { .. } => ProtocolCapability::Window,
            Request::Wait { pane: Some(_), .. }
            | Request::Send { pane: Some(_), .. }
            | Request::Show { pane: Some(_), .. }
            | Request::Panes
            | Request::FocusPane { .. }
            | Request::ClosePane { .. } => ProtocolCapability::Pane,
            Request::Attach { .. }
            | Request::ResizeAttachment { .. } => ProtocolCapability::Attachment,
            Request::SemanticSnapshot { .. } => ProtocolCapability::Semantic,
            Request::Ping
            | Request::Status
            | Request::Wait { pane: None, .. }
            | Request::Send { pane: None, .. }
            | Request::Show { pane: None, .. }
            | Request::Logs { .. }
            | Request::Resize { .. }
            | Request::Mark { .. }
            | Request::Stop => {
                return RequestRequirements { capability: None, hold_name_lock: false };
            },
        };
        RequestRequirements {
            capability: Some(capability),
            hold_name_lock: capability == ProtocolCapability::LayoutCommand,
        }
    }
}

/// A semantic snapshot as an application gave it.
#[derive(Debug)]
pub struct SemanticSnapshotResult {
    pub value: serde_json::Value,
}

/// What a session answers.
#[derive(Debug)]
pub struct Response {
    pub protocol_version: u8,
    pub error: Option<String>,
    pub captured: Option<Shot>,
    pub status: Option<SessionStatus>,
    pub logs: Option<Vec<u8>>,
    pub panes: Option<Vec<PaneStatus>>,
    pub windows: Option<Vec<WindowStatus>>,
    pub context: Option<WorkspaceContext>,
    pub semantic_snapshot: Option<SemanticSnapshotResult>,
}

/// An answer that tells nothing but that the request was done.
pub open spec fn plain_response() -> Response {
    Response {
        protocol_version: CURRENT_PROTOCOL_VERSION,
        error: None,
        captured: None,
        status: None,
        logs: None,
        panes: None,
        windows: None,
        context: None,
        semantic_snapshot: None,
    }
}

impl Default for Response {
    fn default() -> (response: Self)
        ensures
            response == plain_response(),
    {
        Response {
            protocol_version: CURRENT_PROTOCOL_VERSION,
            error: None,
            captured: None,
            status: None,
            logs: None,
            panes: None,
            windows: None,
            context: None,
            semantic_snapshot: None,
        }
    }
}

impl Response {
    /// An answer that tells an error.
    pub fn error(error: String) -> (response: Response)
        ensures
            response == (Response { error: Some(error), ..plain_response() }),
    {
        let mut response = Response::default();
        response.error = Some(error);
        response
    }
}

/// The part that an answer lacks.
#[derive(Clone, Copy, Debug, PartialEq, Eq, Structural)]
pub enum MissingPart {
    Status,
    Screen,
    Context,
    Windows,
    Panes,
    Logs,
    SemanticSnapshot,
    StatusWhilePruning,
}

/// Why a session operation failed.
#[derive(Debug)]
pub enum SessionError {
    InvalidName,
    TargetConflict,
    RestartRequired(ProtocolCapability),
    /// The session itself reported an error.
    Reported(String),
    Missing(MissingPart),
    NothingToInfer,
    EmptyBasename { executable: String },
    InvalidBasename { executable: String, name: String },
}

impl SessionError {
    /// What the error says.
    pub open spec fn says(&self) -> Seq<char> {
        match *self {
            SessionError::InvalidName => "session names may contain only ASCII letters, digits, '.', '-', and '_'"@,
            SessionError::TargetConflict => "window and pane cannot be combined; pane ids are already globally stable"@,
            SessionError::RestartRequired(capability) => capability.advice(),
            SessionError::Reported(error) => error@,
            SessionError::Missing(part) => missing_text(part),
            SessionError::NothingToInfer => "cannot infer a session name: provide a command after --"@,
            SessionError::EmptyBasename { executable } => "cannot infer a session name from executable "@
                + text::quoted_text(executable@) + ": basename is empty or invalid"@,
            SessionError::InvalidBasename { executable, name } => "cannot infer a session name from executable "@
                + text::quoted_text(executable@) + ": basename "@ + text::quoted_text(name@)
                + " is invalid: "@
                + "session names may contain only ASCII letters, digits, '.', '-', and '_'"@,
        }
    }

    /// Writes out the error.
    pub fn message(&self) -> (message: String)
        ensures
            message@ == self.says(),
    {
        match self {
            SessionError::InvalidName => {
                "session names may contain only ASCII letters, digits, '.', '-', and '_'".to_owned()
            },
            SessionError::TargetConflict => {
                "window and pane cannot be combined; pane ids are already globally stable".to_owned()
            },
            SessionError::RestartRequired(capability) => capability.restart_error().to_owned(),
            SessionError::Reported(error) => error.clone(),
            SessionError::Missing(part) => missing_message(*part),
            SessionError::NothingToInfer => {
                "cannot infer a session name: provide a command after --".to_owned()
            },
            SessionError::EmptyBasename { executable } => {
                let mut message = "cannot infer a session name from executable ".to_owned();
                message.append(text::quoted(executable.as_str()).as_str());
                message.append(": basename is empty or invalid");
                message
            },
            SessionError::InvalidBasename { executable, name } => {
                let mut message = "cannot infer a session name from executable ".to_owned();
                message.append(text::quoted(executable.as_str()).as_str());
                message.append(": basename ");
                message.append(text::quoted(name.as_str()).as_str());
                message.append(" is invalid: ");
                message.append(
                    "session names may contain only ASCII letters, digits, '.', '-', and '_'",
                );
                message
            },
        }
    }
}

/// What is said of an answer that lacks a part.
pub open spec fn missing_text(part: MissingPart) -> Seq<char> {
    match part {
        MissingPart::Status => "session did not return status"@,
        MissingPart::Screen => "session did not return a visible screen"@,
        MissingPart::Context => "session did not return workspace context"@,
        MissingPart::Windows => "session did not return windows"@,
        MissingPart::Panes => "session did not return panes"@,
        MissingPart::Logs => "session did not return logs"@,
        MissingPart::SemanticSnapshot => "session did not return a semantic snapshot"@,
        MissingPart::StatusWhilePruning => "session did not return status while pruning"@,
    }
}

fn missing_message(part: MissingPart) -> (message: String)
    ensures
        message@ == missing_text(part),
{
    match part {
        MissingPart::Status => "session did not return status".to_owned(),
        MissingPart::Screen => "session did not return a visible screen".to_owned(),
        MissingPart::Context => "session did not return workspace context".to_owned(),
        MissingPart::Windows => "session did not return windows".to_owned(),
        MissingPart::Panes => "session did not return panes".to_owned(),
        MissingPart::Logs => "session did not return logs".to_owned(),
        MissingPart::SemanticSnapshot => "session did not return a semantic snapshot".to_owned(),
        MissingPart::StatusWhilePruning => {
            "session did not return status while pruning".to_owned()
        },
    }
}

/// Whether a character may stand in a session name.
pub open spec fn name_char(ch: char) -> bool {
    ||| 'a' <= ch <= 'z'
    ||| 'A' <= ch <= 'Z'
    ||| '0' <= ch <= '9'
    ||| ch == '-'
    ||| ch == '_'
    ||| ch == '.'
}

/// Whether `name` may name a session: ASCII letters, digits, dots, dashes and underscores, and at
/// least one of them.
pub open spec fn names_session(name: Seq<char>) -> bool {
    name.len() > 0 && forall|i: int| 0 <= i < name.len() ==> name_char(#[trigger] name[i])
}

/// Whether `name` may name a session.
pub fn valid_name(name: &str) -> (valid: bool)
    ensures
        valid == names_session(name@),
{
    let chars = text::chars_of(name);
    let mut index: usize = 0;
    while index < chars.len()
        invariant
            index <= chars@.len(),
            chars@ == name@,
            forall|i: int| 0 <= i < index ==> name_char(#[trigger] chars@[i]),
        decreases chars@.len() - index,
    {
        let ch = chars[index];
        if !(('a' <= ch && ch <= 'z') || ('A' <= ch && ch <= 'Z') || ('0' <= ch && ch <= '9') || ch
            == '-' || ch == '_' || ch == '.') {
            return false;
        }
        index += 1;
    }
    chars.len() > 0
}

/// Refuses a name that cannot name a session.
pub fn validate_name(name: &str) -> (result: Result<(), SessionError>)
    ensures
        result is Ok <==> names_session(name@),
        result matches Err(error) ==> error is InvalidName,
{
    if valid_name(name) {
        Ok(())
    } else {
        Err(SessionError::InvalidName)
    }
}

/// Where the last component of `fields` that names something stands. Empty components and single
/// dots name nothing.
pub open spec fn last_component(fields: Seq<Seq<char>>) -> Option<Seq<char>>
    decreases fields.len(),
{
    if fields.len() == 0 {
        None
    } else if fields.last().len() == 0 || fields.last() == "."@ {
        last_component(fields.drop_last())
    } else {
        Some(fields.last())
    }
}

/// The last component of a path, unless that is the parent directory.
pub open spec fn basename(path: Seq<char>) -> Option<Seq<char>> {
    match last_component(text::split(path, '/')) {
        Some(name) => if name == ".."@ {
            None
        } else {
            Some(name)
        },
        None => None,
    }
}

/// The last component of a path.
pub fn path_basename(path: &str) -> (name: Option<String>)
    ensures
        (match name {
            Some(name) => Some(name@),
            None => None,
        }) == basename(path@),
{
    let chars = text::chars_of(path);
    let fields = text::split_fields(chars.as_slice(), '/');
    let ghost views = text::field_views(fields@);
    let mut index: usize = fields.len();
    assert(views.take(index as int) =~= views);
    while index > 0
        invariant
            index <= fields@.len(),
            views == text::field_views(fields@),
            views == text::split(path@, '/'),
            last_component(views) == last_component(views.take(index as int)),
        decreases index,
    {
        index -= 1;
        let field = fields[index].as_slice();
        assert(views.take(index + 1).last() == field@);
        assert(views.take(index + 1).drop_last() =~= views.take(index as int));
        if field.len() == 0 || text::spells(field, ".") {
            continue;
        }
        if text::spells(field, "..") {
            return None;
        }
        return Some(text::text_of(field));
    }
    None
}

/// Whether `error` says why no name can be inferred from a command.
pub open spec fn tells_no_name(error: SessionError, command: Seq<String>) -> bool {
    if command.len() == 0 {
        error is NothingToInfer
    } else if basename(command[0]@) is None {
        error is EmptyBasename && error->EmptyBasename_executable@ == command[0]@
    } else {
        error is InvalidBasename && error->InvalidBasename_executable@ == command[0]@ && Some(
            error->InvalidBasename_name@,
        ) == basename(command[0]@)
    }
}

/// Infers the name of a session from its command: the basename of the executable.
pub fn infer_name(command: &[String]) -> (result: Result<String, SessionError>)
    ensures
        result is Ok <==> command@.len() > 0 && basename(command@[0]@) is Some && names_session(
            basename(command@[0]@)->0,
        ),
        result matches Ok(name) ==> Some(name@) == basename(command@[0]@),
        result matches Err(error) ==> tells_no_name(error, command@),
{
    if command.len() == 0 {
        return Err(SessionError::NothingToInfer);
    }
    let executable = command[0].as_str();
    match path_basename(executable) {
        Some(name) => {
            if valid_name(name.as_str()) {
                Ok(name)
            } else {
                Err(SessionError::InvalidBasename { executable: executable.to_owned(), name })
            }
        },
        None => Err(SessionError::EmptyBasename { executable: executable.to_owned() }),
    }
}

/// An inferred name is one that a session may have.
pub proof fn lemma_inferred_name_is_valid(command: Seq<char>, name: Seq<char>)
    requires
        basename(command) == Some(name),
        names_session(name),
    ensures
        name.len() > 0,
        name != ".."@,
        name != "."@,
{
    lemma_last_component(text::split(command, '/'));
}

proof fn lemma_last_component(fields: Seq<Seq<char>>)
    ensures
        last_component(fields) matches Some(name) ==> name.len() > 0 && name != "."@,
    decreases fields.len(),
{
    if fields.len() > 0 {
        lemma_last_component(fields.drop_last());
    }
}

/// The terminal that a request is about.
#[derive(Debug)]
pub enum TerminalTarget {
    Selected,
    Window(String),
    Pane(PaneId),
}

/// The terminal that a window name or a pane number stands for. They cannot be combined.
pub fn terminal_target(window: Option<String>, pane: Option<PaneId>) -> (result: Result<
    TerminalTarget,
    SessionError,
>)
    ensures
        result is Ok <==> !(window is Some && pane is Some),
        result matches Ok(target) ==> target == targeted(window, pane),
        result matches Err(error) ==> error is TargetConflict,
{
    match (window, pane) {
        (Some(_), Some(_)) => Err(SessionError::TargetConflict),
        (Some(window), None) => Ok(TerminalTarget::Window(window)),
        (None, Some(pane)) => Ok(TerminalTarget::Pane(pane)),
        (None, None) => Ok(TerminalTarget::Selected),
    }
}

/// The terminal that a window name or a pane number stands for.
pub open spec fn targeted(window: Option<String>, pane: Option<PaneId>) -> TerminalTarget {
    match (window, pane) {
        (Some(window), _) => TerminalTarget::Window(window),
        (None, Some(pane)) => TerminalTarget::Pane(pane),
        (None, None) => TerminalTarget::Selected,
    }
}

/// A request that is ready to be sent to a named session.
#[derive(Debug)]
pub struct Exchange {
    pub name: String,
    pub operation: Request,
    pub requirements: RequestRequirements,
}

/// Whether `result` is the exchange that sends `operation` to the session `name`, or the refusal
/// of a name that no session can have.
pub open spec fn sends(
    result: Result<Exchange, SessionError>,
    name: Seq<char>,
    operation: Request,
) -> bool {
    &&& result is Ok <==> names_session(name)
    &&& result matches Ok(exchange) ==> exchange.name@ == name && exchange.operation == operation
        && exchange.requirements == operation.required()
    &&& result matches Err(error) ==> error is InvalidName
}

/// Prepares a request to a named session.
pub fn request(name: &str, operation: Request) -> (result: Result<Exchange, SessionError>)
    ensures
        sends(result, name@, operation),
{
    match validate_name(name) {
        Ok(()) => {
            let requirements = operation.requirements();
            Ok(Exchange { name: name.to_owned(), operation, requirements })
        },
        Err(error) => Err(error),
    }
}

impl Exchange {
    /// Reads the answer. The session must have the capability that the request needs, and must
    /// not have reported an error.
    pub fn finish(&self, response: Response) -> (result: Result<Response, SessionError>)
        ensures
            result is Ok <==> response.error is None && (self.requirements.capability is Some
                ==> response.protocol_version >= self.requirements.capability->0.since()),
            result matches Ok(answer) ==> answer == response,
            result matches Err(error) ==> error == if self.requirements.capability is Some
                && response.protocol_version < self.requirements.capability->0.since() {
                SessionError::RestartRequired(self.requirements.capability->0)
            } else {
                SessionError::Reported(response.error->0)
            },
    {
        if let Some(capability) = self.requirements.capability {
            match capability.require(&response) {
                Ok(()) => {},
                Err(error) => {
                    return Err(error);
                },
            }
        }
        match response.error {
            Some(error) => Err(SessionError::Reported(error)),
            None => Ok(response),
        }
    }

    /// Reads the answer to the ping that comes before a request under the name lock: the session
    /// must be able to take the request.
    pub fn check_ping(&self, response: Response) -> (result: Result<(), SessionError>)
        ensures
            result is Ok <==> response.error is None && (self.requirements.capability is Some
                ==> response.protocol_version >= self.requirements.capability->0.since()),
            result matches Err(error) ==> error == if response.error is Some {
                SessionError::Reported(response.error->0)
            } else {
                SessionError::RestartRequired(self.requirements.capability->0)
            },
    {
        if let Some(error) = response.error {
            return Err(SessionError::Reported(error));
        }
        match self.requirements.capability {
            Some(capability) => capability.require(&response),
            None => Ok(()),
        }
    }
}

/// The request that waits for visible text.
pub open spec fn waiting(target: TerminalTarget, text: String, timeout_ms: u64) -> Request {
    match target {
        TerminalTarget::Selected => Request::Wait { text, timeout_ms, pane: None },
        TerminalTarget::Pane(pane) => Request::Wait { text, timeout_ms, pane: Some(pane) },
        TerminalTarget::Window(name) => Request::WaitWindow { name, text, timeout_ms },
    }
}

/// The request that sends input.
pub open spec fn sending(target: TerminalTarget, input: Vec<Vec<u8>>, pace_ms: u64) -> Request {
    match target {
        TerminalTarget::Selected => Request::Send { input, pace_ms, pane: None },
        TerminalTarget::Pane(pane) => Request::Send { input, pace_ms, pane: Some(pane) },
        TerminalTarget::Window(name) => Request::SendWindow { name, input, pace_ms },
    }
}

/// The request that reads the screen.
pub open spec fn showing(target: TerminalTarget, settle_ms: u64, deadline_ms: u64) -> Request {
    match target {
        TerminalTarget::Selected => Request::Show { settle_ms, deadline_ms, pane: None },
        TerminalTarget::Pane(pane) => Request::Show { settle_ms, deadline_ms, pane: Some(pane) },
        TerminalTarget::Window(name) => Request::ShowWindow { name, settle_ms, deadline_ms },
    }
}

/// Waits until `text` is visible in a terminal.
pub fn wait_for_target(name: &str, target: TerminalTarget, text: String, timeout_ms: u64) -> (result:
    Result<Exchange, SessionError>)
    ensures
        sends(result, name@, waiting(target, text, timeout_ms)),
{
    let operation = match target {
        TerminalTarget::Selected => Request::Wait { text, timeout_ms, pane: None },
        TerminalTarget::Pane(pane) => Request::Wait { text, timeout_ms, pane: Some(pane) },
        TerminalTarget::Window(name) => Request::WaitWindow { name, text, timeout_ms },
    };
    request(name, operation)
}

/// Waits until `text` is visible in the selected terminal.
pub fn wait(name: &str, text: String, timeout_ms: u64) -> (result: Result<Exchange, SessionError>)
    ensures
        sends(result, name@, Request::Wait { text, timeout_ms, pane: None }),
{
    wait_for_target(name, TerminalTarget::Selected, text, timeout_ms)
}

/// Waits until `text` is visible in a pane, or in the selected terminal.
pub fn wait_for(name: &str, pane: Option<PaneId>, text: String, timeout_ms: u64) -> (result: Result<
    Exchange,
    SessionError,
>)
    ensures
        sends(result, name@, Request::Wait { text, timeout_ms, pane }),
{
    let target = match pane {
        Some(pane) => TerminalTarget::Pane(pane),
        None => TerminalTarget::Selected,
    };
    wait_for_target(name, target, text, timeout_ms)
}

/// Waits until `text` is visible in a window or a pane.
pub fn wait_for_in(
    name: &str,
    window: Option<String>,
    pane: Option<PaneId>,
    text: String,
    timeout_ms: u64,
) -> (result: Result<Exchange, SessionError>)
    ensures
        window is Some && pane is Some ==> result == Err::<Exchange, SessionError>(
            SessionError::TargetConflict,
        ),
        !(window is Some && pane is Some) ==> sends(
            result,
            name@,
            waiting(targeted(window, pane), text, timeout_ms),
        ),
{
    match terminal_target(window, pane) {
        Ok(target) => wait_for_target(name, target, text, timeout_ms),
        Err(error) => Err(error),
    }
}

/// Asks for the status of a session.
pub fn status(name: &str) -> (result: Result<Exchange, SessionError>)
    ensures
        sends(result, name@, Request::Status),
{
    request(name, Request::Status)
}

/// Sends input to a terminal.
pub fn send_to_target(name: &str, target: TerminalTarget, input: Vec<Vec<u8>>, pace_ms: u64) -> (result:
    Result<Exchange, SessionError>)
    ensures
        sends(result, name@, sending(target, input, pace_ms)),
{
    let operation = match target {
        TerminalTarget::Selected => Request::Send { input, pace_ms, pane: None },
        TerminalTarget::Pane(pane) => Request::Send { input, pace_ms, pane: Some(pane) },
        TerminalTarget::Window(name) => Request::SendWindow { name, input, pace_ms },
    };
    request(name, operation)
}

/// Sends input to the selected terminal.
pub fn send(name: &str, input: Vec<Vec<u8>>, pace_ms: u64) -> (result: Result<
    Exchange,
    SessionError,
>)
    ensures
        sends(result, name@, Request::Send { input, pace_ms, pane: None }),
{
    send_to_target(name, TerminalTarget::Selected, input, pace_ms)
}

/// Sends input to a pane, or to the selected terminal.
pub fn send_to(name: &str, pane: Option<PaneId>, input: Vec<Vec<u8>>, pace_ms: u64) -> (result:
    Result<Exchange, SessionError>)
    ensures
        sends(result, name@, Request::Send { input, pace_ms, pane }),
{
    let target = match pane {
        Some(pane) => TerminalTarget::Pane(pane),
        None => TerminalTarget::Selected,
    };
    send_to_target(name, target, input, pace_ms)
}

/// Sends input to a window or a pane.
pub fn send_to_in(
    name: &str,
    window: Option<String>,
    pane: Option<PaneId>,
    input: Vec<Vec<u8>>,
    pace_ms: u64,
) -> (result: Result<Exchange, SessionError>)
    ensures
        window is Some && pane is Some ==> result == Err::<Exchange, SessionError>(
            SessionError::TargetConflict,
        ),
        !(window is Some && pane is Some) ==> sends(
            result,
            name@,
            sending(targeted(window, pane), input, pace_ms),
        ),
{
    match terminal_target(window, pane) {
        Ok(target) => send_to_target(name, target, input, pace_ms),
        Err(error) => Err(error),
    }
}

/// Reads the screen of a terminal.
pub fn show_target(name: &str, target: TerminalTarget, settle_ms: u64, deadline_ms: u64) -> (result:
    Result<Exchange, SessionError>)
    ensures
        sends(result, name@, showing(target, settle_ms, deadline_ms)),
{
    let operation = match target {
        TerminalTarget::Selected => Request::Show { settle_ms, deadline_ms, pane: None },
        TerminalTarget::Pane(pane) => Request::Show { settle_ms, deadline_ms, pane: Some(pane) },
        TerminalTarget::Window(name) => Request::ShowWindow { name, settle_ms, deadline_ms },
    };
    request(name, operation)
}

/// Reads the screen of the selected terminal.
pub fn show(name: &str, settle_ms: u64, deadline_ms: u64) -> (result: Result<
    Exchange,
    SessionError,
>)
    ensures
        sends(result, name@, Request::Show { settle_ms, deadline_ms, pane: None }),
{
    show_target(name, TerminalTarget::Selected, settle_ms, deadline_ms)
}

/// Reads the screen of a pane, or of the selected terminal.
pub fn show_pane(name: &str, pane: Option<PaneId>, settle_ms: u64, deadline_ms: u64) -> (result:
    Result<Exchange, SessionError>)
    ensures
        sends(result, name@, Request::Show { settle_ms, deadline_ms, pane }),
{
    let target = match pane {
        Some(pane) => TerminalTarget::Pane(pane),
        None => TerminalTarget::Selected,
    };
    show_target(name, target, settle_ms, deadline_ms)
}

/// Reads the screen of a window or a pane.
pub fn show_in(
    name: &str,
    window: Option<String>,
    pane: Option<PaneId>,
    settle_ms: u64,
    deadline_ms: u64,
) -> (result: Result<Exchange, SessionError>)
    ensures
        window is Some && pane is Some ==> result == Err::<Exchange, SessionError>(
            SessionError::TargetConflict,
        ),
        !(window is Some && pane is Some) ==> sends(
            result,
            name@,
            showing(targeted(window, pane), settle_ms, deadline_ms),
        ),
{
    match terminal_target(window, pane) {
        Ok(target) => show_target(name, target, settle_ms, deadline_ms),
        Err(error) => Err(error),
    }
}

/// Asks for the semantic snapshot of a window's or a pane's application, to be answered by
/// `deadline_unix_ms`.
pub fn semantic_snapshot_in(
    name: &str,
    window: Option<String>,
    pane: Option<PaneId>,
    deadline_unix_ms: u64,
) -> (result: Result<Exchange, SessionError>)
    ensures
        names_session(name@) && window is Some && pane is Some ==> result == Err::<
            Exchange,
            SessionError,
        >(SessionError::TargetConflict),
        !(names_session(name@) && window is Some && pane is Some) ==> sends(
            result,
            name@,
            Request::SemanticSnapshot { deadline_unix_ms, pane, window },
        ),
{
    match validate_name(name) {
        Ok(()) => {},
        Err(error) => {
            return Err(error);
        },
    }
    let (window, pane) = match terminal_target(window, pane) {
        Ok(TerminalTarget::Selected) => (None, None),
        Ok(TerminalTarget::Window(window)) => (Some(window), None),
        Ok(TerminalTarget::Pane(pane)) => (None, Some(pane)),
        Err(error) => {
            return Err(error);
        },
    };
    request(name, Request::SemanticSnapshot { deadline_unix_ms, pane, window })
}

/// Asks for the panes of the selected window.
pub fn panes(name: &str) -> (result: Result<Exchange, SessionError>)
    ensures
        sends(result, name@, Request::Panes),
{
    request(name, Request::Panes)
}

/// Asks for the windows of a workspace.
pub fn windows(name: &str) -> (result: Result<Exchange, SessionError>)
    ensures
        sends(result, name@, Request::Windows),
{
    request(name, Request::Windows)
}

/// Asks where a pane, or the selected pane, stands.
pub fn workspace_context(
    name: &str,
    pane: Option<PaneId>,
) -> (result: Result<Exchange, SessionError>)
    ensures
        sends(result, name@, Request::WorkspaceContext { pane }),
{
    request(name, Request::WorkspaceContext { pane })
}

/// Moves the tab strip.
pub fn set_workspace_tab_position(
    name: &str,
    position: TabPosition,
) -> (result: Result<Exchange, SessionError>)
    ensures
        sends(result, name@, Request::SetTabPosition { position }),
{
    request(name, Request::SetTabPosition { position })
}

/// Moves a window to another place among the tabs.
pub fn move_workspace_window(
    name: &str,
    window: String,
    index: usize,
) -> (result: Result<Exchange, SessionError>)
    ensures
        sends(result, name@, Request::MoveWindow { name: window, index }),
{
    request(name, Request::MoveWindow { name: window, index })
}

/// Asks for the retained output of a window.
pub fn logs_window(
    name: &str,
    window: String,
    ansi: bool,
) -> (result: Result<Exchange, SessionError>)
    ensures
        sends(result, name@, Request::LogsWindow { name: window, ansi }),
{
    request(name, Request::LogsWindow { name: window, ansi })
}

/// Moves a pane to another window.
pub fn move_workspace_pane(
    name: &str,
    pane: PaneId,
    window: String,
    vertical: bool,
) -> (result: Result<Exchange, SessionError>)
    ensures
        sends(result, name@, Request::MovePane { pane, window, vertical }),
{
    request(name, Request::MovePane { pane, window, vertical })
}

/// Moves one border of a pane.
pub fn resize_workspace_pane(
    name: &str,
    pane: PaneId,
    direction: Direction,
    cells: u16,
) -> (result: Result<Exchange, SessionError>)
    ensures
        sends(result, name@, Request::ResizePane { pane, direction, cells }),
{
    request(name, Request::ResizePane { pane, direction, cells })
}

/// Zooms a pane, or undoes that.
pub fn toggle_workspace_zoom(name: &str, pane: PaneId) -> (result: Result<Exchange, SessionError>)
    ensures
        sends(result, name@, Request::ToggleZoom { pane }),
{
    request(name, Request::ToggleZoom { pane })
}

/// Opens a window.
pub fn create_workspace_window(
    name: &str,
    window: Option<String>,
    command: Vec<String>,
    cwd: Option<String>,
) -> (result: Result<Exchange, SessionError>)
    ensures
        sends(result, name@, Request::CreateWindow { name: window, command, cwd }),
{
    request(name, Request::CreateWindow { name: window, command, cwd })
}

/// Selects a window.
pub fn select_workspace_window(
    name: &str,
    window: String,
) -> (result: Result<Exchange, SessionError>)
    ensures
        sends(result, name@, Request::SelectWindow { name: window }),
{
    request(name, Request::SelectWindow { name: window })
}

/// Renames a window.
pub fn rename_workspace_window(
    name: &str,
    window: String,
    new_name: String,
) -> (result: Result<Exchange, SessionError>)
    ensures
        sends(result, name@, Request::RenameWindow { name: window, new_name }),
{
    request(name, Request::RenameWindow { name: window, new_name })
}

/// Closes a window.
pub fn close_workspace_window(
    name: &str,
    window: String,
) -> (result: Result<Exchange, SessionError>)
    ensures
        sends(result, name@, Request::CloseWindow { name: window }),
{
    request(name, Request::CloseWindow { name: window })
}

/// Arranges the selected window as a grid.
pub fn set_workspace_layout(
    name: &str,
    columns: u16,
    rows: u16,
    command: Vec<String>,
) -> (result: Result<Exchange, SessionError>)
    ensures
        sends(result, name@, Request::Layout { columns, rows, command }),
{
    request(name, Request::Layout { columns, rows, command })
}

/// Focuses a pane.
pub fn focus_workspace_pane(name: &str, pane: PaneId) -> (result: Result<Exchange, SessionError>)
    ensures
        sends(result, name@, Request::FocusPane { pane }),
{
    request(name, Request::FocusPane { pane })
}

/// Closes a pane.
pub fn close_workspace_pane(name: &str, pane: PaneId) -> (result: Result<Exchange, SessionError>)
    ensures
        sends(result, name@, Request::ClosePane { pane }),
{
    request(name, Request::ClosePane { pane })
}

/// Resizes a session.
pub fn resize(
    name: &str,
    cols: u16,
    rows: u16,
    cell_width: Option<u16>,
    cell_height: Option<u16>,
) -> (result: Result<Exchange, SessionError>)
    ensures
        sends(result, name@, Request::Resize { cols, rows, cell_width, cell_height }),
{
    request(name, Request::Resize { cols, rows, cell_width, cell_height })
}

/// Marks a moment of the recording.
pub fn mark(name: &str, marker: String) -> (result: Result<Exchange, SessionError>)
    ensures
        sends(result, name@, Request::Mark { name: marker }),
{
    request(name, Request::Mark { name: marker })
}

/// Asks for the retained output of a session.
pub fn logs(name: &str, ansi: bool) -> (result: Result<Exchange, SessionError>)
    ensures
        sends(result, name@, Request::Logs { ansi }),
{
    request(name, Request::Logs { ansi })
}

/// Stops a session.
pub fn stop(name: &str) -> (result: Result<Exchange, SessionError>)
    ensures
        sends(result, name@, Request::Stop),
{
    request(name, Request::Stop)
}

/// Asks for the panes of a window, or of the selected window.
pub fn panes_in_window(name: &str, window: Option<String>) -> (result: Result<
    Exchange,
    SessionError,
>)
    ensures
        sends(
            result,
            name@,
            match window {
                Some(window) => Request::WindowPanes { name: window },
                None => Request::Panes,
            },
        ),
{
    match window {
        Some(window) => request(name, Request::WindowPanes { name: window }),
        None => panes(name),
    }
}

/// Arranges a window, or the selected window, as a grid.
pub fn set_workspace_layout_in_window(
    name: &str,
    window: Option<String>,
    columns: u16,
    rows: u16,
    command: Vec<String>,
) -> (result: Result<Exchange, SessionError>)
    ensures
        sends(
            result,
            name@,
            match window {
                Some(window) => Request::WindowLayout { name: window, columns, rows, command },
                None => Request::Layout { columns, rows, command },
            },
        ),
{
    match window {
        Some(window) => request(name, Request::WindowLayout { name: window, columns, rows, command }),
        None => request(name, Request::Layout { columns, rows, command }),
    }
}

/// The status that a session answered.
pub fn status_response(response: Response) -> (result: Result<SessionStatus, SessionError>)
    ensures
        result == match response.status {
            Some(status) => Ok::<SessionStatus, SessionError>(status),
            None => Err(SessionError::Missing(MissingPart::Status)),
        },
{
    match response.status {
        Some(status) => Ok(status),
        None => Err(SessionError::Missing(MissingPart::Status)),
    }
}

/// The screen that a session answered.
pub fn shot_response(response: Response) -> (result: Result<Shot, SessionError>)
    ensures
        result == match response.captured {
            Some(captured) => Ok::<Shot, SessionError>(captured),
            None => Err(SessionError::Missing(MissingPart::Screen)),
        },
{
    match response.captured {
        Some(captured) => Ok(captured),
        None => Err(SessionError::Missing(MissingPart::Screen)),
    }
}

/// The panes that a session answered.
pub fn pane_response(response: Response) -> (result: Result<Vec<PaneStatus>, SessionError>)
    ensures
        result == match response.panes {
            Some(panes) => Ok::<Vec<PaneStatus>, SessionError>(panes),
            None => Err(SessionError::Missing(MissingPart::Panes)),
        },
{
    match response.panes {
        Some(panes) => Ok(panes),
        None => Err(SessionError::Missing(MissingPart::Panes)),
    }
}

/// The windows that a session answered.
pub fn window_response(response: Response) -> (result: Result<Vec<WindowStatus>, SessionError>)
    ensures
        result == match response.windows {
            Some(windows) => Ok::<Vec<WindowStatus>, SessionError>(windows),
            None => Err(SessionError::Missing(MissingPart::Windows)),
        },
{
    match response.windows {
        Some(windows) => Ok(windows),
        None => Err(SessionError::Missing(MissingPart::Windows)),
    }
}

/// The place that a session answered.
pub fn context_response(response: Response) -> (result: Result<WorkspaceContext, SessionError>)
    ensures
        result == match response.context {
            Some(context) => Ok::<WorkspaceContext, SessionError>(context),
            None => Err(SessionError::Missing(MissingPart::Context)),
        },
{
    match response.context {
        Some(context) => Ok(context),
        None => Err(SessionError::Missing(MissingPart::Context)),
    }
}

/// The retained output that a session answered.
pub fn logs_response(response: Response) -> (result: Result<Vec<u8>, SessionError>)
    ensures
        result == match response.logs {
            Some(logs) => Ok::<Vec<u8>, SessionError>(logs),
            None => Err(SessionError::Missing(MissingPart::Logs)),
        },
{
    match response.logs {
        Some(logs) => Ok(logs),
        None => Err(SessionError::Missing(MissingPart::Logs)),
    }
}

/// The screen and the status that a session answered. A missing screen is told first.
pub fn shot_and_status_response(response: Response) -> (result: Result<
    (Shot, SessionStatus),
    SessionError,
>)
    ensures
        result == match (response.captured, response.status) {
            (Some(shot), Some(status)) => Ok::<(Shot, SessionStatus), SessionError>((shot, status)),
            (None, _) => Err(SessionError::Missing(MissingPart::Screen)),
            (_, None) => Err(SessionError::Missing(MissingPart::Status)),
        },
{
    match (response.captured, response.status) {
        (Some(shot), Some(status)) => Ok((shot, status)),
        (None, _) => Err(SessionError::Missing(MissingPart::Screen)),
        (_, None) => Err(SessionError::Missing(MissingPart::Status)),
    }
}

/// The semantic snapshot that a session answered.
pub fn semantic_response(response: Response) -> (result: Result<serde_json::Value, SessionError>)
    ensures
        result == match response.semantic_snapshot {
            Some(snapshot) => Ok::<serde_json::Value, SessionError>(snapshot.value),
            None => Err(SessionError::Missing(MissingPart::SemanticSnapshot)),
        },
{
    match response.semantic_snapshot {
        Some(snapshot) => Ok(snapshot.value),
        None => Err(SessionError::Missing(MissingPart::SemanticSnapshot)),
    }
}

/// Prepares the removal of a session.
pub fn prune(name: &str, dry_run: bool) -> (result: Result<Pruning, SessionError>)
    ensures
        result is Ok <==> names_session(name@),
        result matches Ok(pruning) ==> pruning.name@ == name@ && pruning.dry_run == dry_run,
        result matches Err(error) ==> error is InvalidName,
{
    match validate_name(name) {
        Ok(()) => Ok(Pruning { name: name.to_owned(), dry_run }),
        Err(error) => Err(error),
    }
}

/// The directory that holds the sockets of sessions. See [`crate::runtime::directory`].
pub fn runtime_dir(configured: Option<Vec<u8>>, euid: u32) -> (path: Vec<u8>)
    ensures
        path@ == match configured {
            Some(path) => path@,
            None => vstd::utf8::encode_utf8(crate::runtime::default_directory(euid)),
        },
{
    crate::runtime::directory(configured, euid)
}

/// Each capability came with a version of the protocol: panes with the first, attaching with the
/// second, windows with the third, commands in new panes with the fourth, workspace controls with
/// the fifth and semantic snapshots with the sixth, which is spoken now.
pub proof fn lemma_capabilities_have_versions(capability: ProtocolCapability)
    ensures
        match capability {
            ProtocolCapability::Pane => capability.since() == 1,
            ProtocolCapability::Attachment => capability.since() == 2,
            ProtocolCapability::Window => capability.since() == 3,
            ProtocolCapability::LayoutCommand => capability.since() == 4,
            ProtocolCapability::WorkspaceControl => capability.since() == 5,
            ProtocolCapability::Semantic => capability.since() == 6,
        },
        capability.since() <= plain_response().protocol_version == 6,
{
}

/// A request needs what it makes use of: named windows, panes by their number, commands for new
/// panes, attaching, workspace controls or semantic snapshots. Everything else can be asked of any
/// session. Only a request that starts commands holds the lock on the session's name.
pub proof fn lemma_requests_need_what_they_use(request: Request)
    ensures
        ({
            let needs = request.required().capability;
            match request {
                Request::Layout { command, .. } => needs == Some(
                    if command@.len() > 0 {
                        ProtocolCapability::LayoutCommand
                    } else {
                        ProtocolCapability::Pane
                    },
                ),
                Request::WindowLayout { command, .. } => needs == Some(
                    if command@.len() > 0 {
                        ProtocolCapability::LayoutCommand
                    } else {
                        ProtocolCapability::Window
                    },
                ),
                Request::Wait { pane, .. } | Request::Send { pane, .. } | Request::Show {
                    pane,
                    ..
                } => needs == if pane is Some {
                    Some(ProtocolCapability::Pane)
                } else {
                    None
                },
                Request::Panes | Request::FocusPane { .. } | Request::ClosePane { .. } => needs
                    == Some(ProtocolCapability::Pane),
                Request::Attach { .. } | Request::ResizeAttachment { .. } => needs == Some(
                    ProtocolCapability::Attachment,
                ),
                Request::SemanticSnapshot { .. } => needs == Some(ProtocolCapability::Semantic),
                Request::WorkspaceContext { .. }
                | Request::SetTabPosition { .. }
                | Request::MoveWindow { .. } => needs == Some(ProtocolCapability::WorkspaceControl),
                Request::Ping
                | Request::Status
                | Request::Logs { .. }
                | Request::Resize { .. }
                | Request::Mark { .. }
                | Request::Stop => needs is None,
                _ => needs == Some(ProtocolCapability::Window),
            }
        }),
        request.required().hold_name_lock <==> match request {
            Request::Layout { command, .. } => command@.len() > 0,
            Request::WindowLayout { command, .. } => command@.len() > 0,
            _ => false,
        },
{
}

/// A session's name is made of ASCII letters, digits, dots, dashes and underscores, at least one of
/// them. So it names a file in the runtime directory and nothing elsewhere.
pub proof fn lemma_names_are_plain(name: Seq<char>)
    ensures
        names_session(name) <==> name.len() > 0 && forall|i: int|
            0 <= i < name.len() ==> {
                let ch = #[trigger] name[i];
                'a' <= ch <= 'z' || 'A' <= ch <= 'Z' || '0' <= ch <= '9' || ch == '.' || ch == '-'
                    || ch == '_'
            },
        names_session(name) ==> !name.contains('/') && !name.contains('\0') && !name.contains(' '),
{
    if names_session(name) {
        assert forall|i: int| 0 <= i < name.len() implies name[i] != '/' && name[i] != '\0'
            && name[i] != ' ' by {
            assert(name_char(name[i]));
        }
        assert forall|i: int| 0 <= i < name.len() implies {
            let ch = #[trigger] name[i];
            'a' <= ch <= 'z' || 'A' <= ch <= 'Z' || '0' <= ch <= '9' || ch == '.' || ch == '-' || ch
                == '_'
        } by {
            assert(name_char(name[i]));
        }
    }
}

/// The basename of a path is what stands behind its last slash, and slashes at its end do not count.
/// The parent directory has none.
pub proof fn lemma_basename_is_the_last_component(directory: Seq<char>, name: Seq<char>)
    requires
        !name.contains('/'),
        name.len() > 0,
        name != "."@,
    ensures
        basename(directory.push('/') + name) == if name == ".."@ {
            None
        } else {
            Some(name)
        },
        basename(name) == if name == ".."@ {
            None
        } else {
            Some(name)
        },
        basename(directory.push('/')) == basename(directory),
{
    text::lemma_split_last(directory, '/', name);
    text::lemma_split_one(name, '/');
    assert(text::split(directory, '/').push(name).last() == name);
    assert(seq![name].last() == name);
    let empty = Seq::<char>::empty();
    text::lemma_split_last(directory, '/', empty);
    assert(directory.push('/') + empty =~= directory.push('/'));
    let fields = text::split(directory, '/');
    assert(fields.push(empty).drop_last() =~= fields);
    assert(fields.push(empty).last() == empty);
}

} // verus!
