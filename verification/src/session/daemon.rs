//! Starting, finding, attaching to and removing named sessions.
use crate::environment::{self, EnvAction};
use crate::runtime::SocketFacts;
use crate::session::control::ATTACHED_TERMINAL_ERROR;
use crate::session::{
    MissingPart, NamedSessionStatus, PruneKind, Response, SessionError, SessionState,
    UnavailableReason,
};
use crate::shot::{self, ColorMode, Options};
use crate::text;
use crate::workspace::TabPosition;
use vstd::prelude::*;

verus! {

/// How long a daemon may take to become ready, in nanoseconds.
pub const START_LIMIT: u128 = 5_000_000_000;

/// How long a session may take to stop before it is restarted, in nanoseconds.
pub const STOP_LIMIT: u128 = 2_000_000_000;

/// Puts the user's terminal back in order after an attachment.
pub const RESTORE_TERMINAL: &'static str = "\x1b[?2026l\x1b[?1l\x1b>\x1b[?1000l\x1b[?1002l\x1b[?1003l\x1b[?1006l\x1b[?1004l\x1b[?2004l\x1b[0 q\x1b[0m\x1b[?25h\x1b[?1049l\x1b[23;0t";

/// The name of a session's socket in the runtime directory.
pub fn socket_file(name: &str) -> (file: String)
    ensures
        file@ == name@ + ".sock"@,
{
    let mut file = name.to_owned();
    file.append(".sock");
    file
}

/// The name of the file that is locked while a session is started, restarted or removed.
pub fn lock_file(name: &str) -> (file: String)
    ensures
        file@ == name@ + ".lock"@,
{
    let mut file = name.to_owned();
    file.append(".lock");
    file
}

/// The name of the socket that a terminal attaches with.
pub fn attachment_file(name: &str, id: u64) -> (file: String)
    ensures
        file@ == name@ + ".attach-"@ + text::hex_text(id as nat, 16),
{
    let mut file = name.to_owned();
    file.append(".attach-");
    file.append(text::hexadecimal(id, 16).as_str());
    file
}

/// A number for an attachment, out of the time, the process and a counter.
pub fn attachment_id(now: u64, process: u32, count: u64) -> (id: u64)
    ensures
        id == now ^ ((process as u64) << 32u64) ^ count,
{
    now ^ ((process as u64) << 32u64) ^ count
}

/// Attachments of one process at the same time have different numbers.
pub proof fn lemma_attachments_differ(now: u64, process: u32, count: u64, other: u64)
    requires
        count != other,
    ensures
        now ^ ((process as u64) << 32u64) ^ count != now ^ ((process as u64) << 32u64) ^ other,
{
    let base = now ^ ((process as u64) << 32u64);
    assert(base ^ count != base ^ other) by (bit_vector)
        requires
            count != other,
    ;
}

/// The session whose socket has this name in the runtime directory.
pub open spec fn session_of_file(file: Seq<char>) -> Option<Seq<char>> {
    let stem = file.len() - 5;
    if stem > 0 && file.skip(stem) == ".sock"@ {
        Some(file.take(stem))
    } else {
        None
    }
}

/// Reads a session's name off the name of its socket.
pub fn session_name(file: &str) -> (name: Option<String>)
    ensures
        name is Some <==> session_of_file(file@) is Some,
        name matches Some(name) ==> Some(name@) == session_of_file(file@),
{
    proof {
        reveal_strlit(".sock");
    }
    let chars = text::chars_of(file);
    if chars.len() <= 5 {
        return None;
    }
    let stem: usize = chars.len() - 5;
    let suffix = vstd::slice::slice_subrange(chars.as_slice(), stem, chars.len());
    assert(suffix@ =~= file@.skip(stem as int));
    if !text::spells(suffix, ".sock") {
        return None;
    }
    let name = text::text_of(vstd::slice::slice_subrange(chars.as_slice(), 0, stem));
    assert(name@ =~= file@.take(stem as int));
    Some(name)
}

/// A session is found by the name of its socket.
pub proof fn lemma_socket_names_session(name: Seq<char>)
    requires
        name.len() > 0,
    ensures
        session_of_file(name + ".sock"@) == Some(name),
{
    reveal_strlit(".sock");
    let file = name + ".sock"@;
    assert(file.skip(file.len() - 5) =~= ".sock"@);
    assert(file.take(file.len() - 5) =~= name);
}

/// The word for a color mode, where one has to be given.
pub open spec fn color_word(color: ColorMode) -> Option<Seq<char>> {
    match color {
        ColorMode::Auto => None,
        ColorMode::Always => Some("always"@),
        ColorMode::Never => Some("never"@),
    }
}

/// What is said by an optional text.
pub open spec fn optional_view(text: Option<String>) -> Option<Seq<char>> {
    match text {
        Some(text) => Some(text@),
        None => None,
    }
}

/// The bytes of an optional path.
pub open spec fn optional_path(path: Option<Vec<u8>>) -> Option<Seq<u8>> {
    match path {
        Some(path) => Some(path@),
        None => None,
    }
}

/// The bytes of a text.
pub open spec fn encoded(text: Seq<char>) -> Seq<u8> {
    vstd::utf8::encode_utf8(text)
}

/// The bytes of a number in decimal.
pub open spec fn encoded_number(value: nat) -> Seq<u8> {
    encoded(text::decimal_text(value))
}

/// The bytes of each of these texts.
pub open spec fn all_encoded(texts: Seq<Seq<char>>) -> Seq<Seq<u8>> {
    texts.map_values(|text: Seq<char>| encoded(text))
}

/// The bytes of each of these arguments.
pub open spec fn argument_views(arguments: Seq<Vec<u8>>) -> Seq<Seq<u8>> {
    arguments.map_values(|argument: Vec<u8>| argument@)
}

/// An option with its value, if there is one.
pub open spec fn option_arguments(option: Seq<char>, value: Option<Seq<u8>>) -> Seq<Seq<u8>> {
    match value {
        Some(value) => seq![encoded(option), value],
        None => Seq::empty(),
    }
}

/// The arguments that both daemons take first. A path is any bytes, so arguments are bytes.
pub open spec fn geometry_arguments(
    verb: Seq<char>,
    name: Seq<char>,
    socket: Seq<u8>,
    options: Options,
) -> Seq<Seq<u8>> {
    seq![
        encoded(verb),
        encoded("--name"@),
        encoded(name),
        encoded("--socket"@),
        socket,
        encoded("--cols"@),
        encoded_number(options.cols as nat),
        encoded("--rows"@),
        encoded_number(options.rows as nat),
        encoded("--cell-width"@),
        encoded_number(options.cell_width as nat),
        encoded("--cell-height"@),
        encoded_number(options.cell_height as nat),
        encoded("--max-bytes"@),
        encoded_number(options.max_bytes as nat),
    ]
}

/// The arguments that both daemons take after that.
pub open spec fn launch_arguments(
    options: Options,
    cwd: Option<Seq<u8>>,
    record: Option<Seq<u8>>,
) -> Seq<Seq<u8>> {
    (if options.opentui_host {
        seq![encoded("--opentui-host"@)]
    } else {
        Seq::empty()
    }) + option_arguments(
        "--color"@,
        match color_word(options.color) {
            Some(word) => Some(encoded(word)),
            None => None,
        },
    ) + option_arguments("--cwd"@, cwd) + option_arguments("--record"@, record)
}

fn push_argument(arguments: &mut Vec<Vec<u8>>, argument: &[u8])
    ensures
        argument_views(final(arguments)@) == argument_views(old(arguments)@).push(argument@),
{
    arguments.push(vstd::slice::slice_to_vec(argument));
    assert(argument_views(arguments@) =~= argument_views(old(arguments)@).push(argument@));
}

fn push_option(arguments: &mut Vec<Vec<u8>>, option: &str, value: &[u8])
    ensures
        argument_views(final(arguments)@) == argument_views(old(arguments)@) + seq![
            encoded(option@),
            value@,
        ],
{
    push_argument(arguments, option.as_bytes());
    push_argument(arguments, value);
    assert(argument_views(arguments@) =~= argument_views(old(arguments)@) + seq![
        encoded(option@),
        value@,
    ]);
}

fn push_number(arguments: &mut Vec<Vec<u8>>, option: &str, value: u64)
    ensures
        argument_views(final(arguments)@) == argument_views(old(arguments)@) + seq![
            encoded(option@),
            encoded_number(value as nat),
        ],
{
    let number = text::decimal(value);
    push_option(arguments, option, number.as_str().as_bytes());
}

fn push_command(arguments: &mut Vec<Vec<u8>>, command: &[String])
    ensures
        argument_views(final(arguments)@) == argument_views(old(arguments)@) + (seq![
            encoded("--"@),
        ] + all_encoded(text::views(command@))),
{
    push_argument(arguments, "--".as_bytes());
    let ghost before = argument_views(arguments@);
    let ghost words = all_encoded(text::views(command@));
    let mut index: usize = 0;
    assert(before =~= before + words.take(0));
    while index < command.len()
        invariant
            index <= command@.len(),
            words == all_encoded(text::views(command@)),
            argument_views(arguments@) == before + words.take(index as int),
        decreases command@.len() - index,
    {
        push_argument(arguments, command[index].as_str().as_bytes());
        assert(before + words.take(index as int + 1) =~= (before + words.take(index as int)).push(
            words[index as int],
        ));
        index += 1;
    }
    assert(argument_views(arguments@) =~= argument_views(old(arguments)@) + (seq![encoded("--"@)]
        + words));
}

fn start_arguments(verb: &str, name: &str, socket: &[u8], options: &Options) -> (arguments: Vec<
    Vec<u8>,
>)
    ensures
        argument_views(arguments@) == geometry_arguments(verb@, name@, socket@, *options),
{
    let mut arguments: Vec<Vec<u8>> = Vec::new();
    push_argument(&mut arguments, verb.as_bytes());
    push_option(&mut arguments, "--name", name.as_bytes());
    push_option(&mut arguments, "--socket", socket);
    push_number(&mut arguments, "--cols", options.cols as u64);
    push_number(&mut arguments, "--rows", options.rows as u64);
    push_number(&mut arguments, "--cell-width", options.cell_width as u64);
    push_number(&mut arguments, "--cell-height", options.cell_height as u64);
    push_number(&mut arguments, "--max-bytes", options.max_bytes as u64);
    assert(argument_views(arguments@) =~= geometry_arguments(verb@, name@, socket@, *options));
    arguments
}

fn push_launch(
    arguments: &mut Vec<Vec<u8>>,
    options: &Options,
    cwd: &Option<Vec<u8>>,
    record: &Option<Vec<u8>>,
)
    ensures
        argument_views(final(arguments)@) == argument_views(old(arguments)@) + launch_arguments(
            *options,
            optional_path(*cwd),
            optional_path(*record),
        ),
{
    if options.opentui_host {
        push_argument(arguments, "--opentui-host".as_bytes());
    }
    match options.color {
        ColorMode::Auto => {},
        ColorMode::Always => push_option(arguments, "--color", "always".as_bytes()),
        ColorMode::Never => push_option(arguments, "--color", "never".as_bytes()),
    }
    if let Some(cwd) = cwd {
        push_option(arguments, "--cwd", cwd.as_slice());
    }
    if let Some(record) = record {
        push_option(arguments, "--record", record.as_slice());
    }
    assert(argument_views(arguments@) =~= argument_views(old(arguments)@) + launch_arguments(
        *options,
        optional_path(*cwd),
        optional_path(*record),
    ));
}

/// The arguments of the daemon of a single session. `record` is an absolute path.
pub fn serve_arguments(
    name: &str,
    socket: &[u8],
    options: &Options,
    cwd: &Option<Vec<u8>>,
    record: &Option<Vec<u8>>,
    command: &[String],
) -> (arguments: Vec<Vec<u8>>)
    ensures
        argument_views(arguments@) == geometry_arguments("__serve"@, name@, socket@, *options)
            + launch_arguments(*options, optional_path(*cwd), optional_path(*record)) + (seq![
            encoded("--"@),
        ] + all_encoded(text::views(command@))),
{
    let mut arguments = start_arguments("__serve", name, socket, options);
    push_launch(&mut arguments, options, cwd, record);
    push_command(&mut arguments, command);
    arguments
}

/// The arguments of the daemon of a workspace. `record` is an absolute path.
pub fn workspace_arguments(
    name: &str,
    socket: &[u8],
    options: &Options,
    tab_position: TabPosition,
    cwd: &Option<Vec<u8>>,
    record: &Option<Vec<u8>>,
    command: &[String],
) -> (arguments: Vec<Vec<u8>>)
    ensures
        argument_views(arguments@) == geometry_arguments(
            "__serve-workspace"@,
            name@,
            socket@,
            *options,
        ) + seq![encoded("--tab-position"@), encoded(tab_position.word())] + launch_arguments(
            *options,
            optional_path(*cwd),
            optional_path(*record),
        ) + (if command@.len() > 0 {
            seq![encoded("--"@)] + all_encoded(text::views(command@))
        } else {
            Seq::empty()
        }),
{
    let mut arguments = start_arguments("__serve-workspace", name, socket, options);
    push_option(&mut arguments, "--tab-position", tab_position.as_str().as_bytes());
    push_launch(&mut arguments, options, cwd, record);
    let ghost launched = argument_views(arguments@);
    if command.len() > 0 {
        push_command(&mut arguments, command);
    } else {
        assert(launched =~= launched + Seq::<Seq<u8>>::empty());
    }
    arguments
}

/// What the daemon of a single session changes in its environment: it does not take itself for
/// part of the workspace it was started from.
pub fn serve_environment(name: &str) -> (actions: Vec<EnvAction>)
    ensures
        environment::changes(actions@) == seq![
            environment::EnvChange::Remove { key: "TERMCTRL_WORKSPACE"@ },
            environment::EnvChange::Remove { key: "TERMCTRL_PANE_ID"@ },
            environment::EnvChange::Remove { key: "TERMCTRL_LAUNCH_WINDOW_ID"@ },
            environment::set_to("TERMCTRL_SESSION"@, name@),
        ],
{
    let mut actions: Vec<EnvAction> = Vec::new();
    environment::push_remove(&mut actions, "TERMCTRL_WORKSPACE");
    environment::push_remove(&mut actions, "TERMCTRL_PANE_ID");
    environment::push_remove(&mut actions, "TERMCTRL_LAUNCH_WINDOW_ID");
    environment::push_set(&mut actions, "TERMCTRL_SESSION", name);
    assert(environment::changes(actions@) =~= seq![
        environment::EnvChange::Remove { key: "TERMCTRL_WORKSPACE"@ },
        environment::EnvChange::Remove { key: "TERMCTRL_PANE_ID"@ },
        environment::EnvChange::Remove { key: "TERMCTRL_LAUNCH_WINDOW_ID"@ },
        environment::set_to("TERMCTRL_SESSION"@, name@),
    ]);
    actions
}

/// What the application of a served session is launched with. It finds the name of its session in
/// its environment, whatever it inherits.
pub fn serve(name: String, command: &[String], options: Options) -> (result: Result<
    Options,
    StartError,
>)
    requires
        options.env.wf(),
    ensures
        result is Ok <==> command@.len() > 0,
        result matches Ok(served) ==> {
            &&& served == (Options { env: served.env, ..options })
            &&& served.env.wf()
            &&& environment::value_in(served.env@, "TERMCTRL_SESSION"@) == Some(name@)
            &&& forall|key: Seq<char>|
                key != "TERMCTRL_SESSION"@ ==> #[trigger] environment::value_in(served.env@, key)
                    == environment::value_in(options.env@, key)
            &&& forall|inherited: Option<Seq<char>>| #[trigger]
                environment::value_after(
                    shot::environment_changes(served),
                    "TERMCTRL_SESSION"@,
                    inherited,
                ) == Some(name@)
        },
        result matches Err(error) ==> error is NoCommand,
{
    match check_command(command) {
        Ok(()) => {},
        Err(error) => {
            return Err(error);
        },
    }
    let mut served = options;
    served.env.set("TERMCTRL_SESSION".to_owned(), name);
    assert forall|inherited: Option<Seq<char>>| #[trigger]
        environment::value_after(
            shot::environment_changes(served),
            "TERMCTRL_SESSION"@,
            inherited,
        ) == Some(name@) by {
        shot::lemma_explicit_variable_wins(served, "TERMCTRL_SESSION"@, inherited);
    }
    Ok(served)
}

/// Which daemon is started.
#[derive(Clone, Copy, Debug, PartialEq, Eq, Structural)]
pub enum Daemon {
    Session,
    Workspace,
}

/// Why a named session could not be started.
#[derive(Debug)]
pub enum StartError {
    NoCommand,
    AlreadyRunning { name: String },
    WorkspaceExists { name: String },
    /// Another operation holds the lock on the name.
    Locked,
    Exited { daemon: Daemon, name: String, status: String },
    TimedOut { daemon: Daemon, name: String },
    StopTimedOut { name: String },
    Reported(String),
}

impl StartError {
    /// What the error says.
    pub open spec fn says(&self) -> Seq<char> {
        match *self {
            StartError::NoCommand => "provide a command after --"@,
            StartError::AlreadyRunning { name } => "session "@ + text::quoted_text(name@)
                + " is already running"@,
            StartError::WorkspaceExists { name } => "workspace "@ + text::quoted_text(name@)
                + " already exists; omit the command to attach"@,
            StartError::Locked => "another session operation is already starting this name"@,
            StartError::Exited { daemon, name, status } => match daemon {
                Daemon::Session => "session daemon exited before becoming ready: "@ + status@,
                Daemon::Workspace => "workspace daemon for "@ + text::quoted_text(name@)
                    + " exited before becoming ready: "@ + status@,
            },
            StartError::TimedOut { daemon, name } => match daemon {
                Daemon::Session => "timed out starting session "@ + text::quoted_text(name@),
                Daemon::Workspace => "timed out starting workspace "@ + text::quoted_text(name@),
            },
            StartError::StopTimedOut { name } => "timed out stopping session "@ + text::quoted_text(
                name@,
            ) + " before restart"@,
            StartError::Reported(error) => error@,
        }
    }

    /// Writes out the error.
    pub fn message(&self) -> (message: String)
        ensures
            message@ == self.says(),
    {
        match self {
            StartError::NoCommand => "provide a command after --".to_owned(),
            StartError::AlreadyRunning { name } => around(
                "session ",
                name.as_str(),
                " is already running",
            ),
            StartError::WorkspaceExists { name } => around(
                "workspace ",
                name.as_str(),
                " already exists; omit the command to attach",
            ),
            StartError::Locked => {
                "another session operation is already starting this name".to_owned()
            },
            StartError::Exited { daemon, name, status } => {
                let mut message = match daemon {
                    Daemon::Session => "session daemon exited before becoming ready: ".to_owned(),
                    Daemon::Workspace => around(
                        "workspace daemon for ",
                        name.as_str(),
                        " exited before becoming ready: ",
                    ),
                };
                message.append(status.as_str());
                message
            },
            StartError::TimedOut { daemon, name } => {
                let mut message = match daemon {
                    Daemon::Session => "timed out starting session ".to_owned(),
                    Daemon::Workspace => "timed out starting workspace ".to_owned(),
                };
                message.append(text::quoted(name.as_str()).as_str());
                message
            },
            StartError::StopTimedOut { name } => around(
                "timed out stopping session ",
                name.as_str(),
                " before restart",
            ),
            StartError::Reported(error) => error.clone(),
        }
    }
}

/// A name in quotes between two texts.
fn around(before: &str, name: &str, after: &str) -> (message: String)
    ensures
        message@ == before@ + text::quoted_text(name@) + after@,
{
    let mut message = before.to_owned();
    message.append(text::quoted(name).as_str());
    message.append(after);
    message
}

/// What is found at the place of a session's socket.
#[derive(Clone, Copy, Debug, PartialEq, Eq, Structural)]
pub enum Found {
    Nothing,
    /// A socket that nobody answers at.
    Stale,
    Running,
}

/// What to do before a daemon is started.
#[derive(Debug)]
pub enum StartNext {
    /// Remove the socket, then start.
    RemoveAndSpawn,
    Spawn,
    /// Attach to the workspace that runs.
    Attach,
    Failed(StartError),
}

/// A command is needed to start or restart a session.
pub fn check_command(command: &[String]) -> (result: Result<(), StartError>)
    ensures
        result == if command@.len() == 0 {
            Err::<(), StartError>(StartError::NoCommand)
        } else {
            Ok(())
        },
{
    if command.len() == 0 {
        return Err(StartError::NoCommand);
    }
    Ok(())
}

/// What to do before a session is started: one that runs is not replaced.
pub fn start_locked(name: &str, found: Found) -> (next: StartNext)
    ensures
        match found {
            Found::Nothing => next is Spawn,
            Found::Stale => next is RemoveAndSpawn,
            Found::Running => next is Failed && next->0 is AlreadyRunning
                && next->0->AlreadyRunning_name@ == name@,
        },
{
    match found {
        Found::Nothing => StartNext::Spawn,
        Found::Stale => StartNext::RemoveAndSpawn,
        Found::Running => StartNext::Failed(StartError::AlreadyRunning { name: name.to_owned() }),
    }
}

/// What to do before a workspace is run in the foreground: one that runs is attached to, and then
/// no command can be given.
pub fn run_foreground(name: &str, command: &[String], found: Found) -> (next: StartNext)
    ensures
        match found {
            Found::Nothing => next is Spawn,
            Found::Stale => next is RemoveAndSpawn,
            Found::Running => if command@.len() == 0 {
                next is Attach
            } else {
                next is Failed && next->0 is WorkspaceExists && next->0->WorkspaceExists_name@
                    == name@
            },
        },
{
    match found {
        Found::Nothing => StartNext::Spawn,
        Found::Stale => StartNext::RemoveAndSpawn,
        Found::Running => {
            if command.len() > 0 {
                return StartNext::Failed(StartError::WorkspaceExists { name: name.to_owned() });
            }
            StartNext::Attach
        },
    }
}

/// What to do while a daemon or a session is awaited.
#[derive(Debug)]
pub enum AwaitNext {
    Done,
    /// Rest for so many milliseconds, then look again.
    Rest(u64),
    /// Kill the daemon and give up.
    GiveUp(StartError),
    Failed(StartError),
}

/// Whether a daemon that was started answers, has exited, or is still awaited. `exited` is how it
/// exited.
pub fn await_ready(
    daemon: Daemon,
    name: &str,
    answers: bool,
    exited: Option<String>,
    deadline: u128,
    now: u128,
) -> (next: AwaitNext)
    ensures
        next is Done <==> answers,
        next is Failed <==> !answers && exited is Some,
        next matches AwaitNext::Failed(error) ==> error is Exited && error->Exited_daemon == daemon
            && error->Exited_name@ == name@ && error->Exited_status == exited->0,
        next is GiveUp <==> !answers && exited is None && now >= deadline,
        next matches AwaitNext::GiveUp(error) ==> error is TimedOut && error->TimedOut_daemon
            == daemon && error->TimedOut_name@ == name@,
        next is Rest <==> !answers && exited is None && now < deadline,
        next matches AwaitNext::Rest(rest) ==> rest == 20,
{
    if answers {
        return AwaitNext::Done;
    }
    if let Some(status) = exited {
        return AwaitNext::Failed(StartError::Exited { daemon, name: name.to_owned(), status });
    }
    if now >= deadline {
        return AwaitNext::GiveUp(StartError::TimedOut { daemon, name: name.to_owned() });
    }
    AwaitNext::Rest(20)
}

/// What the answer to a stop before a restart means: a session that could not be asked is not
/// there, and one that reports an error is not replaced. Otherwise its end is awaited.
pub fn stopped_for_restart(reply: Option<Response>) -> (result: Result<bool, StartError>)
    ensures
        result == match reply {
            None => Ok::<bool, StartError>(false),
            Some(response) => match response.error {
                Some(error) => Err(StartError::Reported(error)),
                None => Ok(true),
            },
        },
{
    match reply {
        None => Ok(false),
        Some(response) => match response.error {
            Some(error) => Err(StartError::Reported(error)),
            None => Ok(true),
        },
    }
}

/// Whether a session that was told to stop before a restart still answers.
pub fn await_stopped(name: &str, answers: bool, deadline: u128, now: u128) -> (next: AwaitNext)
    ensures
        next is Done <==> !answers,
        next is Failed <==> answers && now >= deadline,
        next matches AwaitNext::Failed(error) ==> error is StopTimedOut
            && error->StopTimedOut_name@ == name@,
        next is Rest <==> answers && now < deadline,
        next matches AwaitNext::Rest(rest) ==> rest == 10,
{
    if !answers {
        return AwaitNext::Done;
    }
    if now >= deadline {
        return AwaitNext::Failed(StartError::StopTimedOut { name: name.to_owned() });
    }
    AwaitNext::Rest(10)
}

/// Why a session could not be asked, as far as it matters here.
#[derive(Clone, Copy, Debug, PartialEq, Eq, Structural)]
pub enum ConnectFailure {
    ConnectionRefused,
    NotFound,
    Other,
}

/// A failed request: what it says, and the input and output errors among its causes.
#[derive(Debug)]
pub struct RequestFailure {
    pub message: String,
    pub causes: Vec<ConnectFailure>,
}

/// Whether a failure shows that nobody listens at a socket any more.
pub open spec fn shows_stale(causes: Seq<ConnectFailure>) -> bool {
    exists|i: int| 0 <= i < causes.len() && #[trigger] causes[i] != ConnectFailure::Other
}

/// Whether a failure shows that nobody listens at a socket any more: the connection was refused
/// or there is no socket. Any other failure may come from a session that lives.
pub fn stale_socket_error(causes: &Vec<ConnectFailure>) -> (stale: bool)
    ensures
        stale == shows_stale(causes@),
{
    let mut index: usize = 0;
    while index < causes.len()
        invariant
            index <= causes@.len(),
            forall|i: int| 0 <= i < index ==> #[trigger] causes@[i] == ConnectFailure::Other,
        decreases causes@.len() - index,
    {
        match causes[index] {
            ConnectFailure::ConnectionRefused | ConnectFailure::NotFound => {
                return true;
            },
            ConnectFailure::Other => {},
        }
        index += 1;
    }
    false
}

/// What is listed of a session that was asked for its status.
pub fn named_status(name: String, reply: Result<Response, RequestFailure>) -> (session:
    NamedSessionStatus)
    ensures
        session == match reply {
            Ok(response) => NamedSessionStatus {
                name,
                status: response.status,
                error: response.error,
                unavailable: None,
            },
            Err(failure) => NamedSessionStatus {
                name,
                status: None,
                error: Some(failure.message),
                unavailable: Some(
                    if shows_stale(failure.causes@) {
                        UnavailableReason::Stale
                    } else {
                        UnavailableReason::IncompatibleProtocol
                    },
                ),
            },
        },
{
    match reply {
        Ok(response) => NamedSessionStatus {
            name,
            status: response.status,
            error: response.error,
            unavailable: None,
        },
        Err(failure) => {
            let reason = if stale_socket_error(&failure.causes) {
                UnavailableReason::Stale
            } else {
                UnavailableReason::IncompatibleProtocol
            };
            NamedSessionStatus {
                name,
                status: None,
                error: Some(failure.message),
                unavailable: Some(reason),
            }
        },
    }
}

/// Whether sessions are in the order of their names.
pub open spec fn by_name(sessions: Seq<NamedSessionStatus>) -> bool {
    forall|i: int, j: int|
        0 <= i < j < sessions.len() ==> text::up_to(
            (#[trigger] sessions[i]).name@,
            (#[trigger] sessions[j]).name@,
        )
}

/// Puts `session` in its place among sessions in the order of their names.
fn insert_by_name(sessions: &mut Vec<NamedSessionStatus>, session: NamedSessionStatus)
    requires
        by_name(old(sessions)@),
    ensures
        by_name(final(sessions)@),
        final(sessions)@.to_multiset() == old(sessions)@.to_multiset().insert(session),
{
    let mut index: usize = 0;
    let ghost before = sessions@;
    while index < sessions.len() && !text::is_up_to(
        session.name.as_str(),
        sessions[index].name.as_str(),
    )
        invariant
            index <= sessions@.len(),
            sessions@ == before,
            forall|i: int|
                0 <= i < index ==> !text::up_to(session.name@, (#[trigger] sessions@[i]).name@),
        decreases sessions@.len() - index,
    {
        index += 1;
    }
    proof {
        assert forall|i: int| 0 <= i < index implies text::up_to(
            (#[trigger] before[i]).name@,
            session.name@,
        ) by {
            text::lemma_order_is_total(before[i].name@, session.name@);
        }
        assert forall|i: int| index <= i < before.len() implies text::up_to(
            session.name@,
            (#[trigger] before[i]).name@,
        ) by {
            if i > index {
                text::lemma_order_is_transitive(
                    session.name@,
                    before[index as int].name@,
                    before[i].name@,
                );
            }
        }
    }
    sessions.insert(index, session);
    proof {
        let after = sessions@;
        assert(after.remove(index as int) =~= before);
        after.to_multiset_ensures();
        assert(after[index as int] == session);
        assert(after.to_multiset().contains(session));
        assert(after.to_multiset() =~= before.to_multiset().insert(session));
    }
}

/// The sessions that were found, in the order of their names.
pub fn list(found: Vec<NamedSessionStatus>) -> (sessions: Vec<NamedSessionStatus>)
    ensures
        by_name(sessions@),
        sessions@.to_multiset() == found@.to_multiset(),
{
    let mut found = found;
    let ghost all = found@.to_multiset();
    let mut sessions: Vec<NamedSessionStatus> = Vec::new();
    proof {
        sessions@.to_multiset_ensures();
        assert(sessions@.to_multiset().len() == 0);
        assert(found@.to_multiset().add(sessions@.to_multiset()) =~= all);
    }
    while found.len() > 0
        invariant
            by_name(sessions@),
            found@.to_multiset().add(sessions@.to_multiset()) =~= all,
        decreases found@.len(),
    {
        let ghost before = found@;
        let ghost listed = sessions@.to_multiset();
        if let Some(session) = found.pop() {
            proof {
                assert(before =~= found@.push(session));
                found@.to_multiset_ensures();
                assert(before.to_multiset() =~= found@.to_multiset().insert(session));
            }
            insert_by_name(&mut sessions, session);
            assert(found@.to_multiset().add(sessions@.to_multiset()) =~= all);
        }
    }
    proof {
        found@.to_multiset_ensures();
        assert(found@.to_multiset().len() == 0);
        assert(sessions@.to_multiset() =~= all);
    }
    sessions
}

/// Why a session is not removed.
#[derive(Debug)]
pub enum PruneError {
    Untrusted { socket: String },
    Unresponsive { error: String },
    Session(SessionError),
}

impl PruneError {
    /// What the error says.
    pub open spec fn says(&self) -> Seq<char> {
        match *self {
            PruneError::Untrusted { socket } => "refusing to prune untrusted session socket "@
                + socket@,
            PruneError::Unresponsive { error } => "refusing to prune an unresponsive session: "@
                + error@,
            PruneError::Session(error) => error.says(),
        }
    }

    /// Writes out the error.
    pub fn message(&self) -> (message: String)
        ensures
            message@ == self.says(),
    {
        match self {
            PruneError::Untrusted { socket } => {
                let mut message = "refusing to prune untrusted session socket ".to_owned();
                message.append(socket.as_str());
                message
            },
            PruneError::Unresponsive { error } => {
                let mut message = "refusing to prune an unresponsive session: ".to_owned();
                message.append(error.as_str());
                message
            },
            PruneError::Session(error) => error.message(),
        }
    }
}

/// What to do next about a session that may have to be removed.
#[derive(Debug)]
pub enum PruneNext {
    /// Ask for its status.
    Ask,
    /// Tell it to stop, then it is done.
    Stop,
    /// Remove its socket, then it is done.
    RemoveSocket,
    /// Leave it: nothing is to be removed.
    Keep,
    Done(PruneKind),
    Failed(PruneError),
}

/// What an answer to the request for the status means for the removal of a session.
pub open spec fn prune_decision(reply: Result<Response, RequestFailure>, dry_run: bool) -> PruneNext {
    match reply {
        Ok(response) => match response.error {
            Some(error) => PruneNext::Failed(PruneError::Session(SessionError::Reported(error))),
            None => match response.status {
                None => PruneNext::Failed(
                    PruneError::Session(SessionError::Missing(MissingPart::StatusWhilePruning)),
                ),
                Some(status) => if status.state != SessionState::Exited {
                    PruneNext::Keep
                } else if dry_run {
                    PruneNext::Done(PruneKind::Exited)
                } else {
                    PruneNext::Stop
                },
            },
        },
        Err(failure) => if !shows_stale(failure.causes@) {
            PruneNext::Failed(PruneError::Unresponsive { error: failure.message })
        } else if dry_run {
            PruneNext::Done(PruneKind::Stale)
        } else {
            PruneNext::RemoveSocket
        },
    }
}

/// The removal of a session whose command has exited, or that has left a stale socket behind.
#[derive(Debug)]
pub struct Pruning {
    pub name: String,
    /// Whether it is only told what would be removed.
    pub dry_run: bool,
}

impl Pruning {
    /// Looks at what is at the place of the session's socket. Nothing there is nothing to remove,
    /// and only an owner-only socket is looked at any further.
    pub fn found(&self, facts: Option<SocketFacts>, euid: u32, socket: &str) -> (next: PruneNext)
        ensures
            facts is None ==> next is Keep,
            facts is Some && facts->0.trusted(euid) ==> next is Ask,
            facts is Some && !facts->0.trusted(euid) ==> next is Failed
                && next->Failed_0 is Untrusted && next->Failed_0->socket@ == socket@,
    {
        match facts {
            None => PruneNext::Keep,
            Some(facts) => {
                if !facts.is_trusted(euid) {
                    return PruneNext::Failed(PruneError::Untrusted { socket: socket.to_owned() });
                }
                PruneNext::Ask
            },
        }
    }

    /// Decides about a session that was asked for its status. Only one whose command has exited,
    /// or whose socket nobody listens at, is removed, and a dry run removes nothing.
    pub fn asked(&self, reply: Result<Response, RequestFailure>) -> (next: PruneNext)
        ensures
            next == prune_decision(reply, self.dry_run),
    {
        match reply {
            Ok(response) => {
                if let Some(error) = response.error {
                    return PruneNext::Failed(PruneError::Session(SessionError::Reported(error)));
                }
                match response.status {
                    None => PruneNext::Failed(
                        PruneError::Session(SessionError::Missing(MissingPart::StatusWhilePruning)),
                    ),
                    Some(status) => {
                        if !(status.state == SessionState::Exited) {
                            return PruneNext::Keep;
                        }
                        if self.dry_run {
                            return PruneNext::Done(PruneKind::Exited);
                        }
                        PruneNext::Stop
                    },
                }
            },
            Err(failure) => {
                if !stale_socket_error(&failure.causes) {
                    return PruneNext::Failed(PruneError::Unresponsive { error: failure.message });
                }
                if self.dry_run {
                    return PruneNext::Done(PruneKind::Stale);
                }
                PruneNext::RemoveSocket
            },
        }
    }

    /// Reads the answer to a stop.
    pub fn stopped(&self, response: Response) -> (next: PruneNext)
        ensures
            next == match response.error {
                Some(error) => PruneNext::Failed(
                    PruneError::Session(SessionError::Reported(error)),
                ),
                None => PruneNext::Done(PruneKind::Exited),
            },
    {
        match response.error {
            Some(error) => PruneNext::Failed(PruneError::Session(SessionError::Reported(error))),
            None => PruneNext::Done(PruneKind::Exited),
        }
    }
}

/// A session that still runs is never removed, and a dry run never changes anything.
pub proof fn lemma_prune_spares(reply: Result<Response, RequestFailure>, dry_run: bool)
    ensures
        dry_run ==> !(prune_decision(reply, dry_run) is Stop) && !(prune_decision(
            reply,
            dry_run,
        ) is RemoveSocket),
        reply matches Ok(response) && response.status matches Some(status) && status.state
            == SessionState::Running ==> prune_decision(reply, dry_run) is Keep || prune_decision(
            reply,
            dry_run,
        ) is Failed,
        prune_decision(reply, dry_run) is RemoveSocket ==> reply is Err,
{
}

/// What a dry run announces is what a removal then does.
pub proof fn lemma_dry_run_announces(reply: Result<Response, RequestFailure>)
    ensures
        prune_decision(reply, true) == PruneNext::Done(PruneKind::Exited) <==> prune_decision(
            reply,
            false,
        ) is Stop,
        prune_decision(reply, true) == PruneNext::Done(PruneKind::Stale) <==> prune_decision(
            reply,
            false,
        ) is RemoveSocket,
        prune_decision(reply, true) is Keep <==> prune_decision(reply, false) is Keep,
{
}

/// What is said to a terminal that a workspace refused. A workspace that is taken is told with
/// what can be done about it.
pub open spec fn rejection(name: Seq<char>, error: Seq<char>) -> Seq<char> {
    if error == ATTACHED_TERMINAL_ERROR@ {
        "workspace "@ + text::quoted_text(name)
            + " already has an attached terminal; detach it there with ctrl-b d, or choose another workspace with `termctrl run NAME`"@
    } else {
        error
    }
}

/// Writes what is said to a terminal that a workspace refused.
pub fn attachment_rejection(name: &str, error: &str) -> (message: String)
    ensures
        message@ == rejection(name@, error@),
{
    if text::same_text(error, ATTACHED_TERMINAL_ERROR) {
        around(
            "workspace ",
            name,
            " already has an attached terminal; detach it there with ctrl-b d, or choose another workspace with `termctrl run NAME`",
        )
    } else {
        error.to_owned()
    }
}

/// Whether a terminal is large enough for a workspace: one row for the tabs and one for a pane.
pub open spec fn attachable_size(cols: u16, rows: u16) -> bool {
    cols > 0 && rows >= 2
}

/// Whether a terminal is large enough for a workspace.
pub fn valid_workspace_attachment_size(cols: u16, rows: u16) -> (valid: bool)
    ensures
        valid == attachable_size(cols, rows),
{
    cols > 0 && rows >= 2
}

/// Reads the answer to an attachment request.
pub fn attach_answer(name: &str, response: Response) -> (result: Result<(), SessionError>)
    ensures
        result is Ok <==> response.error is None && response.protocol_version
            >= crate::session::ATTACH_PROTOCOL_VERSION,
        result matches Err(error) ==> if response.protocol_version
            < crate::session::ATTACH_PROTOCOL_VERSION {
            error == SessionError::RestartRequired(crate::session::ProtocolCapability::Attachment)
        } else {
            error is Reported && error->Reported_0@ == rejection(name@, response.error->0@)
        },
{
    match crate::session::ProtocolCapability::Attachment.require(&response) {
        Ok(()) => {},
        Err(error) => {
            return Err(error);
        },
    }
    match response.error {
        Some(error) => Err(SessionError::Reported(attachment_rejection(name, error.as_str()))),
        None => Ok(()),
    }
}

/// What to do while a workspace is awaited at the attachment socket.
#[derive(Clone, Copy, Debug, PartialEq, Eq, Structural)]
pub enum AcceptNext {
    Attached,
    /// Rest for so many milliseconds, then look again.
    Rest(u64),
    /// Give up: "timed out waiting for workspace attachment".
    TimedOut,
}

/// Whether a workspace has come to the attachment socket, or is still awaited.
pub fn await_attachment(accepted: bool, deadline: u128, now: u128) -> (next: AcceptNext)
    ensures
        next == if accepted {
            AcceptNext::Attached
        } else if now >= deadline {
            AcceptNext::TimedOut
        } else {
            AcceptNext::Rest(10)
        },
{
    if accepted {
        AcceptNext::Attached
    } else if now >= deadline {
        AcceptNext::TimedOut
    } else {
        AcceptNext::Rest(10)
    }
}

/// How long to wait after a size was not taken, in nanoseconds.
pub const RESIZE_RETRY: u128 = 1_000_000_000;

/// Watches the size of an attached terminal.
#[derive(Clone, Copy, Debug, PartialEq, Eq, Structural)]
pub struct ResizeWatch {
    /// The size that the workspace last took.
    pub cols: u16,
    pub rows: u16,
    /// Whether it is not known what the workspace made of the last size.
    pub uncertain: bool,
    pub retry_after: u128,
}

impl ResizeWatch {
    /// Whether the workspace is to be told of this size now.
    pub open spec fn tells(self, cols: u16, rows: u16, now: u128) -> bool {
        &&& attachable_size(cols, rows)
        &&& cols != self.cols || rows != self.rows || self.uncertain
        &&& now >= self.retry_after
    }

    /// The watch after the workspace was told of a size.
    pub open spec fn told(self, cols: u16, rows: u16, taken: bool, now: u128) -> ResizeWatch {
        if taken {
            ResizeWatch { cols, rows, uncertain: false, ..self }
        } else {
            ResizeWatch {
                uncertain: true,
                retry_after: if now + RESIZE_RETRY > u128::MAX {
                    u128::MAX
                } else {
                    (now + RESIZE_RETRY) as u128
                },
                ..self
            }
        }
    }

    /// Starts with the size that the terminal attached with.
    pub fn start(cols: u16, rows: u16, now: u128) -> (watch: ResizeWatch)
        ensures
            watch == (ResizeWatch { cols, rows, uncertain: false, retry_after: now }),
    {
        ResizeWatch { cols, rows, uncertain: false, retry_after: now }
    }

    /// Whether the workspace is to be told of this size now.
    pub fn should_tell(&self, cols: u16, rows: u16, now: u128) -> (tell: bool)
        ensures
            tell == self.tells(cols, rows, now),
    {
        valid_workspace_attachment_size(cols, rows) && (cols != self.cols || rows != self.rows
            || self.uncertain) && now >= self.retry_after
    }

    /// Notes whether the workspace took a size.
    pub fn note(&mut self, cols: u16, rows: u16, taken: bool, now: u128)
        ensures
            *final(self) == old(self).told(cols, rows, taken, now),
    {
        if taken {
            self.cols = cols;
            self.rows = rows;
            self.uncertain = false;
        } else {
            self.uncertain = true;
            self.retry_after = match now.checked_add(RESIZE_RETRY) {
                Some(moment) => moment,
                None => u128::MAX,
            };
        }
    }
}

/// A size that the workspace took is not told again, one that it did not take is told again after
/// a while, and a size too small for a workspace is never told.
pub proof fn lemma_sizes_are_told_as_needed(
    watch: ResizeWatch,
    cols: u16,
    rows: u16,
    now: u128,
    later: u128,
)
    requires
        now + RESIZE_RETRY <= u128::MAX,
    ensures
        !watch.told(cols, rows, true, now).tells(cols, rows, later),
        attachable_size(cols, rows) ==> (watch.told(cols, rows, false, now).tells(cols, rows, later)
            <==> later >= now + RESIZE_RETRY),
        !attachable_size(cols, rows) ==> !watch.tells(cols, rows, now),
{
}

/// A daemon is told the size of its terminal and of its cells, how much output it keeps, and under
/// which name and at which socket it serves. An option is told only where there is something to
/// tell: the application's framework, a color policy, a directory and a recording.
pub proof fn lemma_daemon_is_told_its_settings(
    verb: Seq<char>,
    name: Seq<char>,
    socket: Seq<u8>,
    options: Options,
    cwd: Option<Seq<u8>>,
    record: Option<Seq<u8>>,
)
    ensures
        ({
            let text = |text: Seq<char>| vstd::utf8::encode_utf8(text);
            let number = |value: nat| vstd::utf8::encode_utf8(text::decimal_text(value));
            let first = geometry_arguments(verb, name, socket, options);
            &&& first.len() == 15
            &&& first[0] == text(verb)
            &&& first[1] == text("--name"@) && first[2] == text(name)
            &&& first[3] == text("--socket"@) && first[4] == socket
            &&& first[5] == text("--cols"@) && first[6] == number(options.cols as nat)
            &&& first[7] == text("--rows"@) && first[8] == number(options.rows as nat)
            &&& first[9] == text("--cell-width"@) && first[10] == number(options.cell_width as nat)
            &&& first[11] == text("--cell-height"@) && first[12] == number(
                options.cell_height as nat,
            )
            &&& first[13] == text("--max-bytes"@) && first[14] == number(options.max_bytes as nat)
            &&& launch_arguments(options, cwd, record) == (if options.opentui_host {
                seq![text("--opentui-host"@)]
            } else {
                Seq::empty()
            }) + (match options.color {
                ColorMode::Auto => Seq::empty(),
                ColorMode::Always => seq![text("--color"@), text("always"@)],
                ColorMode::Never => seq![text("--color"@), text("never"@)],
            }) + (if cwd is Some {
                seq![text("--cwd"@), cwd->0]
            } else {
                Seq::empty()
            }) + (if record is Some {
                seq![text("--record"@), record->0]
            } else {
                Seq::empty()
            })
        }),
{
}

/// A session is removed exactly if it says that its command has exited, or nobody listens at its
/// socket any more. One that runs is kept. Where neither is known the removal is refused, and a dry
/// run only tells what would be removed.
pub proof fn lemma_prune_decides(reply: Result<Response, RequestFailure>, dry_run: bool)
    ensures
        ({
            let next = prune_decision(reply, dry_run);
            let exited = reply is Ok && reply->Ok_0.error is None && reply->Ok_0.status is Some
                && reply->Ok_0.status->0.state is Exited;
            let running = reply is Ok && reply->Ok_0.error is None && reply->Ok_0.status is Some
                && reply->Ok_0.status->0.state is Running;
            let stale = reply is Err && exists|i: int|
                0 <= i < reply->Err_0.causes@.len() && (#[trigger] reply->Err_0.causes@[i]
                    is ConnectionRefused || reply->Err_0.causes@[i] is NotFound);
            &&& next is Stop <==> exited && !dry_run
            &&& next is RemoveSocket <==> stale && !dry_run
            &&& next == PruneNext::Done(PruneKind::Exited) <==> exited && dry_run
            &&& next == PruneNext::Done(PruneKind::Stale) <==> stale && dry_run
            &&& next is Keep <==> running
            &&& next is Failed <==> !exited && !running && !stale
        }),
{
    if let Err(failure) = reply {
        let causes = failure.causes@;
        if shows_stale(causes) {
            let i = choose|i: int|
                0 <= i < causes.len() && #[trigger] causes[i] != ConnectFailure::Other;
            assert(causes[i] is ConnectionRefused || causes[i] is NotFound);
        }
        if exists|i: int|
            0 <= i < causes.len() && (#[trigger] causes[i] is ConnectionRefused || causes[i]
                is NotFound) {
            let i = choose|i: int|
                0 <= i < causes.len() && (#[trigger] causes[i] is ConnectionRefused || causes[i]
                    is NotFound);
            assert(causes[i] != ConnectFailure::Other);
        }
    }
}

/// A workspace is told of a size exactly if a tab line and a pane fit into it, it is another size than
/// the one it took, or it is not known whether it did, and it is time. Nothing else of the watch
/// changes when it was told.
pub proof fn lemma_watch_follows_the_terminal(
    watch: ResizeWatch,
    cols: u16,
    rows: u16,
    taken: bool,
    now: u128,
)
    ensures
        watch.tells(cols, rows, now) <==> cols >= 1 && rows >= 2 && (cols != watch.cols || rows
            != watch.rows || watch.uncertain) && now >= watch.retry_after,
        taken ==> {
            let after = watch.told(cols, rows, taken, now);
            after.cols == cols && after.rows == rows && !after.uncertain && after.retry_after
                == watch.retry_after
        },
        !taken ==> {
            let after = watch.told(cols, rows, taken, now);
            after.cols == watch.cols && after.rows == watch.rows && after.uncertain && (now
                + 1_000_000_000 <= u128::MAX ==> after.retry_after == now + 1_000_000_000)
        },
{
}

/// A refusal is told as the workspace gave it, except where the workspace has a terminal already: then
/// it is told which workspace that is.
pub proof fn lemma_rejections_are_told(name: Seq<char>, error: Seq<char>)
    ensures
        error != "workspace already has an attached terminal"@ ==> rejection(name, error) == error,
        error == "workspace already has an attached terminal"@ ==> text::occurs(
            rejection(name, error),
            text::quoted_text(name),
        ),
{
    if error == ATTACHED_TERMINAL_ERROR@ {
        let told = rejection(name, error);
        let before = "workspace "@;
        let quoted = text::quoted_text(name);
        assert(told.subrange(before.len() as int, (before.len() + quoted.len()) as int)
            =~= quoted);
        assert(text::occurs_at(told, quoted, before.len() as int));
    }
}

} // verus!
