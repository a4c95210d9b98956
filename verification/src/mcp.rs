//! Tools for agents: typed input, and what they are told of sessions.
use crate::cli;
use crate::input;
use crate::session::{
    self, Exchange, NamedSessionStatus, ProcessExit, Request, SessionError, SessionState,
    SessionStatus, TerminalTarget, UnavailableReason,
};
use crate::shot::Shot;
use crate::text;
use crate::workspace::{PaneId, PaneStatus, WindowStatus, WorkspaceContext};
use vstd::prelude::*;

verus! {

broadcast use vstd::string::group_string_axioms;

/// The tools that control named sessions.
#[derive(Clone, Copy, Debug)]
pub struct TerminalControl;

/// A key with a name.
#[derive(Clone, Copy, Debug, PartialEq, Eq, Structural)]
pub enum Key {
    Enter,
    Escape,
    ArrowUp,
    ArrowDown,
    ArrowLeft,
    ArrowRight,
    Tab,
    ShiftTab,
    Backspace,
    Delete,
    Home,
    End,
    PageUp,
    PageDown,
}

/// Typed input.
#[derive(Debug)]
pub enum Input {
    Text { text: String },
    Key { key: Key },
    Control { letter: char },
    Bytes { bytes: Vec<u8> },
}

/// Why a tool refuses a request.
#[derive(Debug)]
pub enum ToolError {
    ControlLetter,
    Session(SessionError),
}

impl ToolError {
    /// What the error says.
    pub open spec fn says(&self) -> Seq<char> {
        match *self {
            ToolError::ControlLetter => "control input must be one ASCII letter"@,
            ToolError::Session(error) => error.says(),
        }
    }

    /// Writes out the error.
    pub fn message(&self) -> (message: String)
        ensures
            message@ == self.says(),
    {
        match self {
            ToolError::ControlLetter => "control input must be one ASCII letter".to_owned(),
            ToolError::Session(error) => error.message(),
        }
    }
}

impl Key {
    /// The bytes that the key sends.
    pub open spec fn sends(self) -> Seq<u8> {
        match self {
            Key::Enter => seq![13u8],
            Key::Escape => seq![27u8],
            Key::ArrowUp => seq![27u8, 91u8, 65u8],
            Key::ArrowDown => seq![27u8, 91u8, 66u8],
            Key::ArrowLeft => seq![27u8, 91u8, 68u8],
            Key::ArrowRight => seq![27u8, 91u8, 67u8],
            Key::Tab => seq![9u8],
            Key::ShiftTab => seq![27u8, 91u8, 90u8],
            Key::Backspace => seq![127u8],
            Key::Delete => seq![27u8, 91u8, 51u8, 126u8],
            Key::Home => seq![27u8, 91u8, 72u8],
            Key::End => seq![27u8, 91u8, 70u8],
            Key::PageUp => seq![27u8, 91u8, 53u8, 126u8],
            Key::PageDown => seq![27u8, 91u8, 54u8, 126u8],
        }
    }

    /// How the key is called on a command line.
    pub open spec fn event(self) -> Seq<char> {
        match self {
            Key::Enter => "enter"@,
            Key::Escape => "escape"@,
            Key::ArrowUp => "up"@,
            Key::ArrowDown => "down"@,
            Key::ArrowLeft => "left"@,
            Key::ArrowRight => "right"@,
            Key::Tab => "tab"@,
            Key::ShiftTab => "shift-tab"@,
            Key::Backspace => "backspace"@,
            Key::Delete => "delete"@,
            Key::Home => "home"@,
            Key::End => "end"@,
            Key::PageUp => "page-up"@,
            Key::PageDown => "page-down"@,
        }
    }
}

/// The bytes that a key sends.
pub fn key_bytes(key: Key) -> (bytes: Vec<u8>)
    ensures
        bytes@ == key.sends(),
{
    let bytes: Vec<u8> = match key {
        Key::Enter => vec![13u8],
        Key::Escape => vec![27u8],
        Key::ArrowUp => vec![27u8, 91u8, 65u8],
        Key::ArrowDown => vec![27u8, 91u8, 66u8],
        Key::ArrowLeft => vec![27u8, 91u8, 68u8],
        Key::ArrowRight => vec![27u8, 91u8, 67u8],
        Key::Tab => vec![9u8],
        Key::ShiftTab => vec![27u8, 91u8, 90u8],
        Key::Backspace => vec![127u8],
        Key::Delete => vec![27u8, 91u8, 51u8, 126u8],
        Key::Home => vec![27u8, 91u8, 72u8],
        Key::End => vec![27u8, 91u8, 70u8],
        Key::PageUp => vec![27u8, 91u8, 53u8, 126u8],
        Key::PageDown => vec![27u8, 91u8, 54u8, 126u8],
    };
    assert(bytes@ =~= key.sends());
    bytes
}

/// A key sends the same bytes whether an agent types it or the command line names it.
pub proof fn lemma_keys_agree(key: Key)
    ensures
        input::named_key(key.event()) == Some(key.sends()),
{
    reveal_strlit("enter");
    reveal_strlit("escape");
    reveal_strlit("esc");
    reveal_strlit("up");
    reveal_strlit("down");
    reveal_strlit("left");
    reveal_strlit("right");
    reveal_strlit("tab");
    reveal_strlit("shift-tab");
    reveal_strlit("backspace");
    reveal_strlit("delete");
    reveal_strlit("home");
    reveal_strlit("end");
    reveal_strlit("page-up");
    reveal_strlit("page-down");
    assert("enter"@[0] == 'e');
    assert("escape"@[0] == 'e' && "escape"@[1] == 's');
    assert("esc"@[0] == 'e' && "esc"@[1] == 's');
    assert("up"@[0] == 'u');
    assert("down"@[0] == 'd' && "down"@[1] == 'o');
    assert("left"@[0] == 'l');
    assert("right"@[0] == 'r');
    assert("tab"@[0] == 't');
    assert("shift-tab"@[0] == 's');
    assert("backspace"@[0] == 'b');
    assert("delete"@[0] == 'd' && "delete"@[1] == 'e');
    assert("home"@[0] == 'h');
    assert("end"@[0] == 'e' && "end"@[1] == 'n' && "end"@.len() == 3);
    assert("page-up"@[0] == 'p' && "page-up"@[5] == 'u');
    assert("page-down"@[0] == 'p' && "page-down"@[5] == 'd');
}

/// The bytes that typed input sends.
pub open spec fn atom_bytes(atom: Input) -> Option<Seq<u8>> {
    match atom {
        Input::Text { text } => Some(vstd::utf8::encode_utf8(text@)),
        Input::Key { key } => Some(key.sends()),
        Input::Control { letter } => match input::control_byte(letter) {
            Some(byte) => Some(seq![byte]),
            None => None,
        },
        Input::Bytes { bytes } => Some(bytes@),
    }
}

/// The bytes that typed input sends: a text as it is written, a key, a letter with the control
/// key, or exact bytes.
pub fn encode_atom(atom: Input) -> (result: Result<Vec<u8>, ToolError>)
    ensures
        result is Ok <==> atom_bytes(atom) is Some,
        result matches Ok(bytes) ==> atom_bytes(atom) == Some(bytes@),
        result matches Err(error) ==> error is ControlLetter,
{
    match atom {
        Input::Text { text } => Ok(vstd::slice::slice_to_vec(text.as_str().as_bytes())),
        Input::Key { key } => Ok(key_bytes(key)),
        Input::Control { letter } => {
            let byte: u8 = if 'a' <= letter && letter <= 'z' {
                letter as u8 - 96
            } else if 'A' <= letter && letter <= 'Z' {
                letter as u8 - 64
            } else {
                return Err(ToolError::ControlLetter);
            };
            let bytes: Vec<u8> = vec![byte];
            assert(bytes@ =~= seq![byte]);
            Ok(bytes)
        },
        Input::Bytes { bytes } => Ok(bytes),
    }
}

/// Whether all of this input can be sent.
pub open spec fn sendable(atoms: Seq<Input>) -> bool {
    forall|i: int| 0 <= i < atoms.len() ==> atom_bytes(#[trigger] atoms[i]) is Some
}

/// The bursts that input is sent in: one for each atom.
pub open spec fn atom_bursts(atoms: Seq<Input>) -> Seq<Seq<u8>> {
    atoms.map_values(|atom: Input| atom_bytes(atom)->0)
}

/// The bursts that input is sent in.
pub fn encode_input(atoms: Vec<Input>) -> (result: Result<Vec<Vec<u8>>, ToolError>)
    ensures
        result is Ok <==> sendable(atoms@),
        result matches Ok(bursts) ==> input::burst_views(bursts@) == atom_bursts(atoms@),
        result matches Err(error) ==> error is ControlLetter,
{
    let mut bursts: Vec<Vec<u8>> = Vec::new();
    for atom in iter: atoms
        invariant
            iter.seq() == atoms@,
            bursts@.len() == iter.index(),
            forall|i: int| 0 <= i < bursts@.len() ==> atom_bytes(#[trigger] atoms@[i]) is Some,
            input::burst_views(bursts@) =~= atom_bursts(atoms@).take(bursts@.len() as int),
    {
        let ghost index = bursts@.len() as int;
        match encode_atom(atom) {
            Ok(bytes) => {
                let ghost held = input::burst_views(bursts@);
                let ghost last = bytes@;
                bursts.push(bytes);
                assert(input::burst_views(bursts@) =~= held.push(last));
                assert(atom_bursts(atoms@).take(index + 1) =~= atom_bursts(atoms@).take(index).push(
                    last,
                ));
            },
            Err(error) => {
                assert(atom_bytes(atoms@[index]) is None);
                return Err(error);
            },
        }
    }
    assert(atom_bursts(atoms@).take(atoms@.len() as int) =~= atom_bursts(atoms@));
    Ok(bursts)
}

/// A request to read a screen.
#[derive(Debug)]
pub struct ScreenRequest {
    pub name: String,
    pub window: Option<String>,
    pub pane: Option<PaneId>,
}

/// A request to send input.
#[derive(Debug)]
pub struct SendRequest {
    pub name: String,
    pub window: Option<String>,
    pub pane: Option<PaneId>,
    pub input: Vec<Input>,
    pub pace_ms: u64,
}

/// A request to send input, to wait for text if one is given, and to read the screen.
#[derive(Debug)]
pub struct InteractRequest {
    pub name: String,
    pub window: Option<String>,
    pub pane: Option<PaneId>,
    pub input: Vec<Input>,
    pub pace_ms: u64,
    pub wait_for: Option<String>,
    pub timeout_ms: u64,
}

/// How long to wait for text unless something else is said, in milliseconds.
pub fn default_timeout_ms() -> (timeout_ms: u64)
    ensures
        timeout_ms == 5000,
{
    5000
}

/// How far a border is moved unless something else is said.
pub fn default_resize_cells() -> (cells: u16)
    ensures
        cells == 1,
{
    1
}

/// What is asked of a session, one after the other, in an interaction.
#[derive(Debug)]
pub struct Interaction {
    pub send: Exchange,
    pub wait: Option<Exchange>,
    pub show: Exchange,
}

fn copy_target(target: &TerminalTarget) -> (copy: TerminalTarget)
    ensures
        same_target(copy, *target),
{
    match target {
        TerminalTarget::Selected => TerminalTarget::Selected,
        TerminalTarget::Window(window) => TerminalTarget::Window(window.clone()),
        TerminalTarget::Pane(pane) => TerminalTarget::Pane(*pane),
    }
}

/// Whether two targets are the same terminal.
pub open spec fn same_target(left: TerminalTarget, right: TerminalTarget) -> bool {
    match (left, right) {
        (TerminalTarget::Selected, TerminalTarget::Selected) => true,
        (TerminalTarget::Window(left), TerminalTarget::Window(right)) => left@ == right@,
        (TerminalTarget::Pane(left), TerminalTarget::Pane(right)) => left == right,
        _ => false,
    }
}

/// Whether a request sends this input to this terminal.
pub open spec fn sends_to(
    operation: Request,
    target: TerminalTarget,
    bursts: Seq<Seq<u8>>,
    pace_ms: u64,
) -> bool {
    match (operation, target) {
        (Request::Send { input, pace_ms: pace, pane: None }, TerminalTarget::Selected) => {
            input::burst_views(input@) == bursts && pace == pace_ms
        },
        (Request::Send { input, pace_ms: pace, pane: Some(pane) }, TerminalTarget::Pane(meant)) => {
            input::burst_views(input@) == bursts && pace == pace_ms && pane == meant
        },
        (Request::SendWindow { name, input, pace_ms: pace }, TerminalTarget::Window(meant)) => {
            input::burst_views(input@) == bursts && pace == pace_ms && name@ == meant@
        },
        _ => false,
    }
}

/// Whether a request waits for this text in this terminal.
pub open spec fn waits_in(
    operation: Request,
    target: TerminalTarget,
    awaited: Seq<char>,
    timeout_ms: u64,
) -> bool {
    match (operation, target) {
        (Request::Wait { text, timeout_ms: timeout, pane: None }, TerminalTarget::Selected) => {
            text@ == awaited && timeout == timeout_ms
        },
        (
            Request::Wait { text, timeout_ms: timeout, pane: Some(pane) },
            TerminalTarget::Pane(meant),
        ) => text@ == awaited && timeout == timeout_ms && pane == meant,
        (
            Request::WaitWindow { name, text, timeout_ms: timeout },
            TerminalTarget::Window(meant),
        ) => text@ == awaited && timeout == timeout_ms && name@ == meant@,
        _ => false,
    }
}

/// Whether a request reads this terminal at once.
pub open spec fn reads(operation: Request, target: TerminalTarget) -> bool {
    match (operation, target) {
        (
            Request::Show { settle_ms: 0, deadline_ms: 0, pane: None },
            TerminalTarget::Selected,
        ) => true,
        (
            Request::Show { settle_ms: 0, deadline_ms: 0, pane: Some(pane) },
            TerminalTarget::Pane(meant),
        ) => pane == meant,
        (
            Request::ShowWindow { name, settle_ms: 0, deadline_ms: 0 },
            TerminalTarget::Window(meant),
        ) => name@ == meant@,
        _ => false,
    }
}

impl TerminalControl {
    /// Prepares to read a screen, at once.
    pub fn get_screen(&self, request: ScreenRequest) -> (result: Result<Exchange, SessionError>)
        ensures
            request.window is Some && request.pane is Some ==> result == Err::<
                Exchange,
                SessionError,
            >(SessionError::TargetConflict),
            !(request.window is Some && request.pane is Some) ==> session::sends(
                result,
                request.name@,
                session::showing(session::targeted(request.window, request.pane), 0, 0),
            ),
    {
        match session::terminal_target(request.window, request.pane) {
            Ok(target) => session::show_target(request.name.as_str(), target, 0, 0),
            Err(error) => Err(error),
        }
    }

    /// Prepares to send input. A conflict of targets is told before input that cannot be sent,
    /// and that before a name that no session can have.
    pub fn send_input(&self, request: SendRequest) -> (result: Result<Exchange, ToolError>)
        ensures
            result is Ok <==> !(request.window is Some && request.pane is Some) && sendable(
                request.input@,
            ) && session::names_session(request.name@),
            result matches Ok(exchange) ==> exchange.name@ == request.name@ && exchange.requirements
                == exchange.operation.required() && sends_to(
                exchange.operation,
                session::targeted(request.window, request.pane),
                atom_bursts(request.input@),
                request.pace_ms,
            ),
            result matches Err(error) ==> error == if request.window is Some
                && request.pane is Some {
                ToolError::Session(SessionError::TargetConflict)
            } else if !sendable(request.input@) {
                ToolError::ControlLetter
            } else {
                ToolError::Session(SessionError::InvalidName)
            },
    {
        let target = match session::terminal_target(request.window, request.pane) {
            Ok(target) => target,
            Err(error) => {
                return Err(ToolError::Session(error));
            },
        };
        let bursts = match encode_input(request.input) {
            Ok(bursts) => bursts,
            Err(error) => {
                return Err(error);
            },
        };
        match session::send_to_target(request.name.as_str(), target, bursts, request.pace_ms) {
            Ok(exchange) => Ok(exchange),
            Err(error) => Err(ToolError::Session(error)),
        }
    }

    /// Prepares an interaction: the input is sent, text is awaited if one is given, and the screen
    /// of the same terminal is read.
    pub fn interact(&self, request: InteractRequest) -> (result: Result<Interaction, ToolError>)
        ensures
            result is Ok <==> !(request.window is Some && request.pane is Some) && sendable(
                request.input@,
            ) && session::names_session(request.name@),
            result matches Ok(interaction) ==> {
                let target = session::targeted(request.window, request.pane);
                &&& interaction.send.name@ == request.name@
                &&& interaction.send.requirements == interaction.send.operation.required()
                &&& sends_to(
                    interaction.send.operation,
                    target,
                    atom_bursts(request.input@),
                    request.pace_ms,
                )
                &&& interaction.wait is Some <==> request.wait_for is Some
                &&& interaction.wait matches Some(wait) ==> wait.name@ == request.name@
                    && wait.requirements == wait.operation.required() && waits_in(
                    wait.operation,
                    target,
                    request.wait_for->0@,
                    request.timeout_ms,
                )
                &&& interaction.show.name@ == request.name@
                &&& interaction.show.requirements == interaction.show.operation.required()
                &&& reads(interaction.show.operation, target)
            },
            result matches Err(error) ==> error == if request.window is Some
                && request.pane is Some {
                ToolError::Session(SessionError::TargetConflict)
            } else if !sendable(request.input@) {
                ToolError::ControlLetter
            } else {
                ToolError::Session(SessionError::InvalidName)
            },
    {
        let target = match session::terminal_target(request.window, request.pane) {
            Ok(target) => target,
            Err(error) => {
                return Err(ToolError::Session(error));
            },
        };
        let bursts = match encode_input(request.input) {
            Ok(bursts) => bursts,
            Err(error) => {
                return Err(error);
            },
        };
        let name = request.name.as_str();
        let send = match session::send_to_target(
            name,
            copy_target(&target),
            bursts,
            request.pace_ms,
        ) {
            Ok(exchange) => exchange,
            Err(error) => {
                return Err(ToolError::Session(error));
            },
        };
        let wait = match request.wait_for {
            Some(text) => {
                match session::wait_for_target(
                    name,
                    copy_target(&target),
                    text,
                    request.timeout_ms,
                ) {
                    Ok(exchange) => Some(exchange),
                    Err(error) => {
                        return Err(ToolError::Session(error));
                    },
                }
            },
            None => None,
        };
        match session::show_target(name, target, 0, 0) {
            Ok(show) => Ok(Interaction { send, wait, show }),
            Err(error) => Err(ToolError::Session(error)),
        }
    }
}

/// What an agent is told of a screen.
#[derive(Debug)]
pub struct Screen {
    pub name: String,
    pub text: String,
    pub state: String,
    pub cols: u16,
    pub rows: u16,
}

/// What an agent is told of a screen that was read.
pub fn capture_target(name: String, shot: &Shot, status: &SessionStatus) -> (screen: Screen)
    ensures
        screen.name == name,
        screen.text@ == shot.frame@.text(),
        screen.state@ == cli::state_word(status.state),
        screen.cols == shot.frame.cols,
        screen.rows == shot.frame.rows,
{
    Screen {
        name,
        text: shot.frame.text(),
        state: state(status.state).to_owned(),
        cols: shot.frame.cols,
        rows: shot.frame.rows,
    }
}

/// The word for the state of a session.
pub fn state(value: SessionState) -> (word: &'static str)
    ensures
        word@ == cli::state_word(value),
{
    cli::session_state(value)
}

/// What an agent is told of one session among others.
#[derive(Debug)]
pub struct SessionSummary {
    pub name: String,
    pub state: Option<String>,
    pub command: Option<Vec<String>>,
    pub cwd: Option<String>,
    pub cols: Option<u16>,
    pub rows: Option<u16>,
    pub recording: Option<bool>,
    pub error: Option<String>,
    pub unavailable: Option<String>,
}

/// Whether a summary tells what is known of a session that answered.
pub open spec fn summarizes(summary: SessionSummary, entry: NamedSessionStatus) -> bool {
    &&& summary.name == entry.name
    &&& summary.error == entry.error
    &&& match entry.unavailable {
        Some(reason) => summary.unavailable is Some && summary.unavailable->0@ == match reason {
            UnavailableReason::Stale => "Stale"@,
            UnavailableReason::IncompatibleProtocol => "IncompatibleProtocol"@,
        },
        None => summary.unavailable is None,
    }
    &&& match entry.status {
        Some(status) => {
            &&& summary.state is Some && summary.state->0@ == cli::state_word(status.state)
            &&& summary.command == Some(status.launch.command)
            &&& summary.cwd == Some(status.launch.cwd)
            &&& summary.cols == Some(status.cols)
            &&& summary.rows == Some(status.rows)
            &&& summary.recording == Some(status.recording)
        },
        None => {
            &&& summary.state is None
            &&& summary.command is None
            &&& summary.cwd is None
            &&& summary.cols is None
            &&& summary.rows is None
            &&& summary.recording is None
        },
    }
}

/// What an agent is told of one session among others.
pub fn session_summary(entry: NamedSessionStatus) -> (summary: SessionSummary)
    ensures
        summarizes(summary, entry),
{
    let unavailable = match entry.unavailable {
        Some(UnavailableReason::Stale) => Some("Stale".to_owned()),
        Some(UnavailableReason::IncompatibleProtocol) => Some("IncompatibleProtocol".to_owned()),
        None => None,
    };
    match entry.status {
        Some(status) => SessionSummary {
            name: entry.name,
            state: Some(state(status.state).to_owned()),
            command: Some(status.launch.command),
            cwd: Some(status.launch.cwd),
            cols: Some(status.cols),
            rows: Some(status.rows),
            recording: Some(status.recording),
            error: entry.error,
            unavailable,
        },
        None => SessionSummary {
            name: entry.name,
            state: None,
            command: None,
            cwd: None,
            cols: None,
            rows: None,
            recording: None,
            error: entry.error,
            unavailable,
        },
    }
}

/// What an agent is told of the sessions that run, in their order.
pub fn session_list(entries: Vec<NamedSessionStatus>) -> (summaries: Vec<SessionSummary>)
    ensures
        summaries@.len() == cli::listed(entries@, false).len(),
        forall|i: int|
            0 <= i < summaries@.len() ==> summarizes(
                #[trigger] summaries@[i],
                cli::listed(entries@, false)[i],
            ),
{
    let mut summaries: Vec<SessionSummary> = Vec::new();
    for entry in iter: entries
        invariant
            iter.seq() == entries@,
            summaries@.len() == cli::listed(entries@.take(iter.index() as int), false).len(),
            forall|i: int|
                0 <= i < summaries@.len() ==> summarizes(
                    #[trigger] summaries@[i],
                    cli::listed(entries@.take(iter.index() as int), false)[i],
                ),
    {
        let ghost index = iter.index() as int;
        assert(entries@.take(index + 1).drop_last() =~= entries@.take(index));
        assert(entries@.take(index + 1).last() == entry);
        if cli::is_listed(&entry, false) {
            summaries.push(session_summary(entry));
        }
    }
    assert(entries@.take(entries@.len() as int) =~= entries@);
    summaries
}

/// What an agent is told of one session.
#[derive(Debug)]
pub struct SessionDetails {
    pub name: String,
    pub state: String,
    pub exit: Option<ProcessExit>,
    pub command: Vec<String>,
    pub cwd: String,
    pub cols: u16,
    pub rows: u16,
    pub cell_width: u16,
    pub cell_height: u16,
    pub idle_for_ms: Option<u64>,
    pub has_visible_content: bool,
    pub recording: bool,
    pub recording_path: Option<String>,
    pub logs_truncated: bool,
}

/// What an agent is told of one session.
pub fn session_details(name: String, status: SessionStatus) -> (details: SessionDetails)
    ensures
        details.state@ == cli::state_word(status.state),
        details == (SessionDetails {
            name,
            state: details.state,
            exit: status.exit,
            command: status.launch.command,
            cwd: status.launch.cwd,
            cols: status.cols,
            rows: status.rows,
            cell_width: status.cell_width,
            cell_height: status.cell_height,
            idle_for_ms: status.idle_for_ms,
            has_visible_content: status.has_visible_content,
            recording: status.recording,
            recording_path: status.launch.record,
            logs_truncated: status.logs_truncated,
        }),
{
    SessionDetails {
        name,
        state: state(status.state).to_owned(),
        exit: status.exit,
        command: status.launch.command,
        cwd: status.launch.cwd,
        cols: status.cols,
        rows: status.rows,
        cell_width: status.cell_width,
        cell_height: status.cell_height,
        idle_for_ms: status.idle_for_ms,
        has_visible_content: status.has_visible_content,
        recording: status.recording,
        recording_path: status.launch.record,
        logs_truncated: status.logs_truncated,
    }
}

/// What an agent is told of a pane.
#[derive(Debug)]
pub struct PaneSummary {
    pub id: PaneId,
    pub active: bool,
    pub visible: bool,
    pub state: String,
    pub x: u16,
    pub y: u16,
    pub cols: u16,
    pub rows: u16,
    pub title: String,
    pub command: Vec<String>,
    pub cwd: String,
}

/// Whether a summary tells what is known of a pane.
pub open spec fn tells_pane(summary: PaneSummary, pane: PaneStatus) -> bool {
    &&& summary.state@ == cli::state_word(pane.state)
    &&& summary == PaneSummary {
        id: pane.id,
        active: pane.active,
        visible: pane.visible,
        state: summary.state,
        x: pane.x,
        y: pane.y,
        cols: pane.cols,
        rows: pane.rows,
        title: pane.title,
        command: pane.command,
        cwd: pane.cwd,
    }
}

/// What an agent is told of a pane.
pub fn pane_summary(pane: PaneStatus) -> (summary: PaneSummary)
    ensures
        tells_pane(summary, pane),
{
    PaneSummary {
        id: pane.id,
        active: pane.active,
        visible: pane.visible,
        state: state(pane.state).to_owned(),
        x: pane.x,
        y: pane.y,
        cols: pane.cols,
        rows: pane.rows,
        title: pane.title,
        command: pane.command,
        cwd: pane.cwd,
    }
}

/// What an agent is told of panes.
pub fn pane_list(panes: Vec<PaneStatus>) -> (summaries: Vec<PaneSummary>)
    ensures
        summaries@.len() == panes@.len(),
        forall|i: int|
            0 <= i < summaries@.len() ==> tells_pane(#[trigger] summaries@[i], panes@[i]),
{
    let mut summaries: Vec<PaneSummary> = Vec::new();
    for pane in iter: panes
        invariant
            iter.seq() == panes@,
            summaries@.len() == iter.index(),
            forall|i: int|
                0 <= i < summaries@.len() ==> tells_pane(#[trigger] summaries@[i], panes@[i]),
    {
        summaries.push(pane_summary(pane));
    }
    summaries
}

/// What an agent is told of a window.
#[derive(Debug)]
pub struct WindowSummary {
    pub index: usize,
    pub name: String,
    pub active: bool,
    pub pane_count: usize,
    pub active_pane: Option<PaneId>,
    pub zoomed_pane: Option<PaneId>,
    pub activity: bool,
    pub activity_kinds: Vec<String>,
    pub cols: u16,
    pub rows: u16,
}

/// Whether a summary tells what is known of a window.
pub open spec fn tells_window(summary: WindowSummary, window: WindowStatus) -> bool {
    &&& text::views(summary.activity_kinds@) == cli::activity_words(window.activity_kinds@)
    &&& summary == WindowSummary {
        index: window.index,
        name: window.name,
        active: window.active,
        pane_count: window.pane_count,
        active_pane: window.active_pane,
        zoomed_pane: window.zoomed_pane,
        activity: window.activity,
        activity_kinds: summary.activity_kinds,
        cols: window.cols,
        rows: window.rows,
    }
}

/// What an agent is told of a window.
pub fn window_summary(window: WindowStatus) -> (summary: WindowSummary)
    ensures
        tells_window(summary, window),
{
    let activity_kinds = cli::activities(&window.activity_kinds);
    WindowSummary {
        index: window.index,
        name: window.name,
        active: window.active,
        pane_count: window.pane_count,
        active_pane: window.active_pane,
        zoomed_pane: window.zoomed_pane,
        activity: window.activity,
        activity_kinds,
        cols: window.cols,
        rows: window.rows,
    }
}

/// What an agent is told of windows.
pub fn window_list(windows: Vec<WindowStatus>) -> (summaries: Vec<WindowSummary>)
    ensures
        summaries@.len() == windows@.len(),
        forall|i: int|
            0 <= i < summaries@.len() ==> tells_window(#[trigger] summaries@[i], windows@[i]),
{
    let mut summaries: Vec<WindowSummary> = Vec::new();
    for window in iter: windows
        invariant
            iter.seq() == windows@,
            summaries@.len() == iter.index(),
            forall|i: int|
                0 <= i < summaries@.len() ==> tells_window(#[trigger] summaries@[i], windows@[i]),
    {
        summaries.push(window_summary(window));
    }
    summaries
}

/// What an agent is told of a place in a workspace.
#[derive(Debug)]
pub struct ContextSummary {
    pub session: String,
    pub workspace: String,
    pub window_id: u32,
    pub window: String,
    pub window_index: usize,
    pub pane: PaneId,
    pub window_active: bool,
    pub pane_active: bool,
    pub tab_position: String,
}

/// What an agent is told of a place in a workspace.
pub fn workspace_context(context: WorkspaceContext) -> (summary: ContextSummary)
    ensures
        summary.tab_position@ == context.tab_position.word(),
        summary == (ContextSummary {
            session: context.session,
            workspace: context.workspace,
            window_id: context.window_id,
            window: context.window,
            window_index: context.window_index,
            pane: context.pane,
            window_active: context.window_active,
            pane_active: context.pane_active,
            tab_position: summary.tab_position,
        }),
{
    ContextSummary {
        session: context.session,
        workspace: context.workspace,
        window_id: context.window_id,
        window: context.window,
        window_index: context.window_index,
        pane: context.pane,
        window_active: context.window_active,
        pane_active: context.pane_active,
        tab_position: context.tab_position.as_str().to_owned(),
    }
}

/// Says that input was sent.
pub fn sent_message(name: &str) -> (message: String)
    ensures
        message@ == "sent input to "@ + name@,
{
    let mut message = "sent input to ".to_owned();
    message.append(name);
    message
}

/// Says that a session was resized.
pub fn resized_message(name: &str, cols: u16, rows: u16) -> (message: String)
    ensures
        message@ == "resized "@ + name@ + " to "@ + cli::size_text(cols, rows),
{
    let mut message = "resized ".to_owned();
    message.append(name);
    message.append(" to ");
    message.append(cli::size(cols, rows).as_str());
    message
}

/// Says that a session was stopped.
pub fn stopped_message(name: &str) -> (message: String)
    ensures
        message@ == "stopped "@ + name@,
{
    let mut message = "stopped ".to_owned();
    message.append(name);
    message
}

/// Typed input sends what it says: a text its characters, exact bytes themselves, and a letter with
/// the control key its place in the alphabet. Anything else with the control key is refused.
pub proof fn lemma_typed_input_is_sent(text: String, bytes: Vec<u8>, letter: char)
    ensures
        atom_bytes(Input::Text { text }) == Some(vstd::utf8::encode_utf8(text@)),
        atom_bytes(Input::Bytes { bytes }) == Some(bytes@),
        'a' <= letter <= 'z' ==> atom_bytes(Input::Control { letter }) == Some(
            seq![(letter as int - 'a' as int + 1) as u8],
        ),
        'A' <= letter <= 'Z' ==> atom_bytes(Input::Control { letter }) == Some(
            seq![(letter as int - 'A' as int + 1) as u8],
        ),
        !('a' <= letter <= 'z' || 'A' <= letter <= 'Z') ==> atom_bytes(Input::Control { letter })
            is None,
{
}

/// Every piece of typed input is sent as a burst of its own, in order.
pub proof fn lemma_atoms_are_sent_in_order(atoms: Seq<Input>, index: int)
    requires
        sendable(atoms),
        0 <= index < atoms.len(),
    ensures
        atom_bursts(atoms).len() == atoms.len(),
        Some(atom_bursts(atoms)[index]) == atom_bytes(atoms[index]),
{
}

/// What an agent asks of a window is asked of that very window, and what it asks of a pane or of the
/// selected terminal is asked of that.
pub proof fn lemma_agents_reach_their_target(
    operation: Request,
    target: TerminalTarget,
    bursts: Seq<Seq<u8>>,
    awaited: Seq<char>,
    time_ms: u64,
)
    ensures
        sends_to(operation, target, bursts, time_ms) ==> match target {
            TerminalTarget::Window(window) => operation matches Request::SendWindow {
                name,
                input,
                pace_ms,
            } && name@ == window@ && input::burst_views(input@) == bursts && pace_ms == time_ms,
            TerminalTarget::Pane(meant) => operation matches Request::Send { input, pace_ms, pane }
                && pane == Some(meant) && input::burst_views(input@) == bursts && pace_ms
                == time_ms,
            TerminalTarget::Selected => operation matches Request::Send { input, pace_ms, pane }
                && pane is None && input::burst_views(input@) == bursts && pace_ms == time_ms,
        },
        waits_in(operation, target, awaited, time_ms) ==> match target {
            TerminalTarget::Window(window) => operation matches Request::WaitWindow {
                name,
                text,
                timeout_ms,
            } && name@ == window@ && text@ == awaited && timeout_ms == time_ms,
            TerminalTarget::Pane(meant) => operation matches Request::Wait {
                text,
                timeout_ms,
                pane,
            } && pane == Some(meant) && text@ == awaited && timeout_ms == time_ms,
            TerminalTarget::Selected => operation matches Request::Wait { text, timeout_ms, pane }
                && pane is None && text@ == awaited && timeout_ms == time_ms,
        },
        reads(operation, target) ==> match target {
            TerminalTarget::Window(window) => operation matches Request::ShowWindow {
                name,
                settle_ms,
                deadline_ms,
            } && name@ == window@ && settle_ms == 0 && deadline_ms == 0,
            TerminalTarget::Pane(meant) => operation matches Request::Show {
                settle_ms,
                deadline_ms,
                pane,
            } && pane == Some(meant) && settle_ms == 0 && deadline_ms == 0,
            TerminalTarget::Selected => operation matches Request::Show {
                settle_ms,
                deadline_ms,
                pane,
            } && pane is None && settle_ms == 0 && deadline_ms == 0,
        },
{
}

/// A window that is named is the target, a pane that is named is the target, and without either the
/// selected terminal is.
pub proof fn lemma_named_terminals_are_targeted(window: Option<String>, pane: Option<PaneId>)
    requires
        !(window is Some && pane is Some),
    ensures
        match session::targeted(window, pane) {
            TerminalTarget::Window(name) => window == Some(name),
            TerminalTarget::Pane(number) => window is None && pane == Some(number),
            TerminalTarget::Selected => window is None && pane is None,
        },
{
}

/// An agent is told of a session, a pane or a window what is known of it.
pub proof fn lemma_agents_are_told_what_is_known(
    session: SessionSummary,
    entry: NamedSessionStatus,
    pane: PaneSummary,
    pane_status: PaneStatus,
    window: WindowSummary,
    window_status: WindowStatus,
)
    requires
        summarizes(session, entry),
        tells_pane(pane, pane_status),
        tells_window(window, window_status),
    ensures
        session.name == entry.name,
        session.error == entry.error,
        entry.status matches Some(status) ==> {
            &&& session.state is Some && session.state->0@ == if status.state is Running {
                "running"@
            } else {
                "exited"@
            }
            &&& session.command == Some(status.launch.command)
            &&& session.cwd == Some(status.launch.cwd)
            &&& session.cols == Some(status.cols) && session.rows == Some(status.rows)
            &&& session.recording == Some(status.recording)
        },
        entry.status is None ==> session.state is None && session.command is None,
        pane.id == pane_status.id,
        pane.active == pane_status.active,
        pane.visible == pane_status.visible,
        (pane.x, pane.y, pane.cols, pane.rows) == (
            pane_status.x,
            pane_status.y,
            pane_status.cols,
            pane_status.rows,
        ),
        pane.title == pane_status.title,
        pane.command == pane_status.command,
        pane.cwd == pane_status.cwd,
        window.name == window_status.name,
        window.index == window_status.index,
        window.active == window_status.active,
        window.pane_count == window_status.pane_count,
        window.active_pane == window_status.active_pane,
        window.zoomed_pane == window_status.zoomed_pane,
        window.activity == window_status.activity,
{
}

/// The words of a summary are those of what it tells: the state of a pane, what happened in a window,
/// and why a session does not answer.
pub proof fn lemma_summaries_are_worded(
    session: SessionSummary,
    entry: NamedSessionStatus,
    pane: PaneSummary,
    pane_status: PaneStatus,
    window: WindowSummary,
    window_status: WindowStatus,
    index: int,
)
    requires
        summarizes(session, entry),
        tells_pane(pane, pane_status),
        tells_window(window, window_status),
    ensures
        session.unavailable is Some <==> entry.unavailable is Some,
        entry.unavailable matches Some(reason) ==> session.unavailable->0@ == if reason is Stale {
            "Stale"@
        } else {
            "IncompatibleProtocol"@
        },
        pane.state@ == if pane_status.state is Running {
            "running"@
        } else {
            "exited"@
        },
        (window.cols, window.rows) == (window_status.cols, window_status.rows),
        window.activity_kinds@.len() == window_status.activity_kinds@.len(),
        0 <= index < window_status.activity_kinds@.len() ==> window.activity_kinds@[index]@
            == match window_status.activity_kinds@[index] {
            crate::workspace::ActivityKind::Output => "output"@,
            crate::workspace::ActivityKind::Bell => "bell"@,
            crate::workspace::ActivityKind::Exit => "exit"@,
        },
{
    let words = text::views(window.activity_kinds@);
    assert(words.len() == window.activity_kinds@.len());
    if 0 <= index < window_status.activity_kinds@.len() {
        assert(words[index] == window.activity_kinds@[index]@);
        assert(words[index] == window_status.activity_kinds@[index].word());
    }
}

} // verus!
