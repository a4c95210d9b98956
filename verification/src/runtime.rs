//! The directory that holds the sockets of running sessions, and what is trusted in it.
use crate::text;
use vstd::prelude::*;

verus! {

/// A socket's path must be shorter than this.
pub const MAX_SOCKET_PATH_BYTES: usize = 100;

/// Where the runtime directory is unless it is configured.
pub open spec fn default_directory(euid: u32) -> Seq<char> {
    "/tmp/termctrl-"@ + text::decimal_text(euid as nat)
}

/// Where the runtime directory is: where `TERMCTRL_RUNTIME_DIR` says, or in a place of the user's
/// own under `/tmp`. The configured path is any bytes, and is taken as it is.
pub fn directory(configured: Option<Vec<u8>>, euid: u32) -> (path: Vec<u8>)
    ensures
        path@ == match configured {
            Some(path) => path@,
            None => vstd::utf8::encode_utf8(default_directory(euid)),
        },
{
    match configured {
        Some(path) => path,
        None => {
            let mut path = "/tmp/termctrl-".to_owned();
            path.append(text::decimal(euid as u64).as_str());
            vstd::slice::slice_to_vec(path.as_str().as_bytes())
        },
    }
}

/// Why a path cannot be used.
#[derive(Debug)]
pub enum RuntimeError {
    SocketPathTooLong { kind: String, path: String },
    NotDirectory { path: String },
    NotOwned { path: String },
    /// An operation on the path failed.
    Failed { doing: String, path: String, error: String },
}

impl RuntimeError {
    /// What the error says.
    pub open spec fn says(&self) -> Seq<char> {
        match *self {
            RuntimeError::SocketPathTooLong { kind, path } => kind@
                + " path is too long for portable Unix sockets: "@ + path@
                + "; set TERMCTRL_RUNTIME_DIR to a shorter directory"@,
            RuntimeError::NotDirectory { path } => "session runtime path must be a real directory: "@
                + path@,
            RuntimeError::NotOwned { path } => "session runtime directory is not owned by the current user: "@
                + path@,
            RuntimeError::Failed { doing, path, error } => doing@ + " "@ + path@ + ": "@ + error@,
        }
    }

    /// Writes out the error.
    pub fn message(&self) -> (message: String)
        ensures
            message@ == self.says(),
    {
        match self {
            RuntimeError::SocketPathTooLong { kind, path } => {
                let mut message = kind.clone();
                message.append(" path is too long for portable Unix sockets: ");
                message.append(path.as_str());
                message.append("; set TERMCTRL_RUNTIME_DIR to a shorter directory");
                message
            },
            RuntimeError::NotDirectory { path } => {
                let mut message = "session runtime path must be a real directory: ".to_owned();
                message.append(path.as_str());
                message
            },
            RuntimeError::NotOwned { path } => {
                let mut message = "session runtime directory is not owned by the current user: ".to_owned();
                message.append(path.as_str());
                message
            },
            RuntimeError::Failed { doing, path, error } => {
                let mut message = doing.clone();
                message.append(" ");
                message.append(path.as_str());
                message.append(": ");
                message.append(error.as_str());
                message
            },
        }
    }
}

/// Refuses a socket whose path takes `length` bytes, when that is too long. `path` is how the path
/// is shown and `kind` says whose socket it is.
pub fn ensure_socket_path(length: usize, path: &str, kind: &str) -> (result: Result<
    (),
    RuntimeError,
>)
    ensures
        result is Ok <==> length < MAX_SOCKET_PATH_BYTES,
        result matches Err(error) ==> error is SocketPathTooLong && error.says() == kind@
            + " path is too long for portable Unix sockets: "@ + path@
            + "; set TERMCTRL_RUNTIME_DIR to a shorter directory"@,
{
    if length >= MAX_SOCKET_PATH_BYTES {
        return Err(
            RuntimeError::SocketPathTooLong { kind: kind.to_owned(), path: path.to_owned() },
        );
    }
    Ok(())
}

/// What the file system tells of the runtime directory, without following a link.
#[derive(Clone, Copy, Debug, PartialEq, Eq, Structural)]
pub struct DirectoryFacts {
    pub is_dir: bool,
    pub is_symlink: bool,
    pub uid: u32,
}

impl DirectoryFacts {
    /// Whether it is a directory of the user's own.
    pub open spec fn private(self, euid: u32) -> bool {
        self.is_dir && !self.is_symlink && self.uid == euid
    }
}

/// Refuses a runtime directory that is not a real directory of the user's own.
pub fn require_private_directory(path: &str, facts: DirectoryFacts, euid: u32) -> (result: Result<
    (),
    RuntimeError,
>)
    ensures
        result is Ok <==> facts.private(euid),
        result matches Err(error) ==> if !facts.is_dir || facts.is_symlink {
            error is NotDirectory && error->NotDirectory_path@ == path@
        } else {
            error is NotOwned && error->NotOwned_path@ == path@
        },
{
    if !facts.is_dir || facts.is_symlink {
        return Err(RuntimeError::NotDirectory { path: path.to_owned() });
    }
    if facts.uid != euid {
        return Err(RuntimeError::NotOwned { path: path.to_owned() });
    }
    Ok(())
}

/// What came of an attempt on the runtime directory.
#[derive(Debug)]
pub enum DirectoryEvent {
    Found(DirectoryFacts),
    /// There is nothing at the path. The text is what the system says of it.
    Missing(String),
    InspectFailed(String),
    Created,
    AlreadyExists,
    CreateFailed(String),
    Secured,
    SecureFailed(String),
}

/// What to do next with the runtime directory.
#[derive(Debug)]
pub enum DirectoryNext {
    Inspect,
    Create,
    /// Take all rights from other users.
    Secure,
    Done,
    Failed(RuntimeError),
}

/// Model of [`DirectoryNext`].
pub enum DirectoryView {
    Inspect,
    Create,
    Secure,
    Done,
    Failed(Seq<char>),
}

impl View for DirectoryNext {
    type V = DirectoryView;

    open spec fn view(&self) -> DirectoryView {
        match *self {
            DirectoryNext::Inspect => DirectoryView::Inspect,
            DirectoryNext::Create => DirectoryView::Create,
            DirectoryNext::Secure => DirectoryView::Secure,
            DirectoryNext::Done => DirectoryView::Done,
            DirectoryNext::Failed(error) => DirectoryView::Failed(error.says()),
        }
    }
}

/// What is done with the runtime directory after `event`. `raced` tells that someone else made the
/// directory a moment ago: it is then inspected like one that was there before, and must be there.
pub open spec fn prepared(path: Seq<char>, euid: u32, raced: bool, event: DirectoryEvent) -> DirectoryView {
    match event {
        DirectoryEvent::Found(facts) => if facts.private(euid) {
            DirectoryView::Secure
        } else if !facts.is_dir || facts.is_symlink {
            DirectoryView::Failed("session runtime path must be a real directory: "@ + path)
        } else {
            DirectoryView::Failed(
                "session runtime directory is not owned by the current user: "@ + path,
            )
        },
        DirectoryEvent::Missing(error) => if raced {
            DirectoryView::Failed("inspect"@ + " "@ + path + ": "@ + error@)
        } else {
            DirectoryView::Create
        },
        DirectoryEvent::InspectFailed(error) => DirectoryView::Failed(
            "inspect"@ + " "@ + path + ": "@ + error@,
        ),
        DirectoryEvent::Created => DirectoryView::Secure,
        DirectoryEvent::AlreadyExists => DirectoryView::Inspect,
        DirectoryEvent::CreateFailed(error) => DirectoryView::Failed(
            "create"@ + " "@ + path + ": "@ + error@,
        ),
        DirectoryEvent::Secured => DirectoryView::Done,
        DirectoryEvent::SecureFailed(error) => DirectoryView::Failed(
            "secure"@ + " "@ + path + ": "@ + error@,
        ),
    }
}

fn failed(doing: &str, path: &str, error: String) -> (next: DirectoryNext)
    ensures
        next@ == DirectoryView::Failed(doing@ + " "@ + path@ + ": "@ + error@),
{
    DirectoryNext::Failed(
        RuntimeError::Failed { doing: doing.to_owned(), path: path.to_owned(), error },
    )
}

/// Says what to do next with the runtime directory. It begins with [`DirectoryNext::Inspect`].
pub fn prepare_directory(path: &str, euid: u32, raced: bool, event: DirectoryEvent) -> (next:
    DirectoryNext)
    ensures
        next@ == prepared(path@, euid, raced, event),
{
    match event {
        DirectoryEvent::Found(facts) => {
            match require_private_directory(path, facts, euid) {
                Ok(()) => DirectoryNext::Secure,
                Err(error) => DirectoryNext::Failed(error),
            }
        },
        DirectoryEvent::Missing(error) => if raced {
            failed("inspect", path, error)
        } else {
            DirectoryNext::Create
        },
        DirectoryEvent::InspectFailed(error) => failed("inspect", path, error),
        DirectoryEvent::Created => DirectoryNext::Secure,
        DirectoryEvent::AlreadyExists => DirectoryNext::Inspect,
        DirectoryEvent::CreateFailed(error) => failed("create", path, error),
        DirectoryEvent::Secured => DirectoryNext::Done,
        DirectoryEvent::SecureFailed(error) => failed("secure", path, error),
    }
}

/// A directory that is there is only used when it is a real directory of the user's own.
pub proof fn lemma_foreign_directory_is_refused(
    path: Seq<char>,
    euid: u32,
    raced: bool,
    facts: DirectoryFacts,
)
    requires
        !facts.private(euid),
    ensures
        prepared(path, euid, raced, DirectoryEvent::Found(facts)) is Failed,
{
}

/// What the file system tells of a socket.
#[derive(Clone, Copy, Debug, PartialEq, Eq, Structural)]
pub struct SocketFacts {
    pub is_socket: bool,
    pub uid: u32,
    pub mode: u32,
}

impl SocketFacts {
    /// Whether it is a socket of the user's own that nobody else may use.
    pub open spec fn trusted(self, euid: u32) -> bool {
        self.is_socket && self.uid == euid && self.mode & 63 == 0
    }

    /// Whether the socket is to be trusted.
    pub fn is_trusted(self, euid: u32) -> (trusted: bool)
        ensures
            trusted == self.trusted(euid),
    {
        self.is_socket && self.uid == euid && self.mode & 63 == 0
    }
}

/// Why a socket address cannot be made.
#[derive(Clone, Copy, Debug, PartialEq, Eq, Structural)]
pub enum AddressError {
    NullByte,
    TooLong,
}

impl AddressError {
    /// What the error says.
    pub open spec fn says(self) -> Seq<char> {
        match self {
            AddressError::NullByte => "Unix socket path contains a null byte"@,
            AddressError::TooLong => "Unix socket path is too long"@,
        }
    }

    /// Writes out the error.
    pub fn message(self) -> (message: &'static str)
        ensures
            message@ == self.says(),
    {
        match self {
            AddressError::NullByte => "Unix socket path contains a null byte",
            AddressError::TooLong => "Unix socket path is too long",
        }
    }
}

/// Whether `path` fits into a socket address with room for `capacity` bytes, its end included.
pub fn check_address(path: &[u8], capacity: usize) -> (result: Result<(), AddressError>)
    ensures
        result == if path@.contains(0u8) {
            Err::<(), AddressError>(AddressError::NullByte)
        } else if path@.len() >= capacity {
            Err(AddressError::TooLong)
        } else {
            Ok(())
        },
{
    let mut index: usize = 0;
    while index < path.len()
        invariant
            index <= path@.len(),
            forall|i: int| 0 <= i < index ==> path@[i] != 0,
        decreases path@.len() - index,
    {
        if path[index] == 0 {
            assert(path@[index as int] == 0u8);
            return Err(AddressError::NullByte);
        }
        index += 1;
    }
    if path.len() >= capacity {
        return Err(AddressError::TooLong);
    }
    Ok(())
}

/// What came of waiting for a connection.
#[derive(Clone, Copy, Debug, PartialEq, Eq, Structural)]
pub enum ConnectEvent {
    /// Nothing was waited for yet, or the wait was interrupted.
    Begin,
    /// The connection is there or has failed.
    Ready,
    /// Nothing happened in time.
    Nothing,
}

/// What to do next while a connection is made.
#[derive(Clone, Copy, Debug, PartialEq, Eq, Structural)]
pub enum ConnectNext {
    /// Wait so many milliseconds for the connection.
    Poll(i32),
    /// See whether the connection failed.
    Inspect,
    TimedOut,
}

/// How many milliseconds to wait: what is left, at least one, at most what the call can take.
pub open spec fn poll_milliseconds(left: u128) -> int {
    let milliseconds = left / 1_000_000;
    if milliseconds < 1 {
        1
    } else if milliseconds > i32::MAX {
        i32::MAX as int
    } else {
        milliseconds as int
    }
}

/// What is done for a connection after `event`. Times are in nanoseconds.
pub open spec fn connecting(deadline: u128, event: ConnectEvent, now: u128) -> ConnectNext {
    match event {
        ConnectEvent::Begin => if now >= deadline {
            ConnectNext::TimedOut
        } else {
            ConnectNext::Poll(poll_milliseconds((deadline - now) as u128) as i32)
        },
        ConnectEvent::Ready => ConnectNext::Inspect,
        ConnectEvent::Nothing => ConnectNext::TimedOut,
    }
}

/// Says what to do next while a connection is made.
pub fn connect_step(deadline: u128, event: ConnectEvent, now: u128) -> (next: ConnectNext)
    ensures
        next == connecting(deadline, event, now),
{
    match event {
        ConnectEvent::Begin => {
            if now >= deadline {
                return ConnectNext::TimedOut;
            }
            let milliseconds: u128 = (deadline - now) / 1_000_000;
            if milliseconds < 1 {
                ConnectNext::Poll(1)
            } else if milliseconds > 2147483647 {
                ConnectNext::Poll(i32::MAX)
            } else {
                ConnectNext::Poll(milliseconds as i32)
            }
        },
        ConnectEvent::Ready => ConnectNext::Inspect,
        ConnectEvent::Nothing => ConnectNext::TimedOut,
    }
}

/// A wait for a connection ends: it is never endless and never without a wait.
pub proof fn lemma_waits_are_bounded(deadline: u128, event: ConnectEvent, now: u128)
    ensures
        connecting(deadline, event, now) matches ConnectNext::Poll(milliseconds) ==> 1
            <= milliseconds && now < deadline && (milliseconds > 1 ==> now + milliseconds
            * 1_000_000 <= deadline),
{
}

/// A directory that is there is used exactly if it is a real directory of the user's own, and it is
/// then closed to others. It is made only where nothing was, and it is ready only once it is closed
/// to others.
pub proof fn lemma_directory_is_made_private(
    path: Seq<char>,
    euid: u32,
    raced: bool,
    event: DirectoryEvent,
)
    ensures
        ({
            let next = prepared(path, euid, raced, event);
            &&& event matches DirectoryEvent::Found(facts) ==> if facts.is_dir && !facts.is_symlink
                && facts.uid == euid {
                next is Secure
            } else {
                next is Failed
            }
            &&& event is Missing ==> if raced {
                next is Failed
            } else {
                next is Create
            }
            &&& event is Created ==> next is Secure
            &&& event is AlreadyExists ==> next is Inspect
            &&& event is InspectFailed || event is CreateFailed || event is SecureFailed ==> next
                is Failed
            &&& next is Done <==> event is Secured
        }),
{
}

/// A socket is trusted exactly if it is a socket of the user's own and gives no right to the group or
/// to others: the last six bits of its mode are clear.
pub proof fn lemma_trusted_sockets_are_private(facts: SocketFacts, euid: u32)
    ensures
        facts.trusted(euid) <==> facts.is_socket && facts.uid == euid && facts.mode % 64 == 0,
{
    let mode = facts.mode;
    assert(mode & 63 == mode % 64) by (bit_vector);
}

/// A connection is waited for as long as there is time, to the millisecond, and looked at once it is
/// there. Otherwise it has timed out.
pub proof fn lemma_connection_is_awaited(deadline: u128, event: ConnectEvent, now: u128)
    ensures
        ({
            let next = connecting(deadline, event, now);
            &&& event is Ready ==> next is Inspect
            &&& event is Nothing ==> next is TimedOut
            &&& event is Begin && now >= deadline ==> next is TimedOut
            &&& event is Begin && now < deadline ==> (next matches ConnectNext::Poll(milliseconds)
                && (milliseconds == i32::MAX || now + (milliseconds + 1) * 1_000_000 > deadline))
        }),
{
}

} // verus!
