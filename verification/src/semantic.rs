//! The semantic provider of an application: the handshake, the snapshot exchange and its
//! deadlines.
use crate::text;
use vstd::prelude::*;

verus! {

/// Names the environment variable that tells an application where its semantic socket is.
pub const SOCKET_ENV: &'static str = "TERMCTRL_SEMANTIC_SOCKET";

/// Version of the semantic protocol.
pub const PROTOCOL_VERSION: u8 = 1;

/// Longest message that is read from an application.
pub const MAX_MESSAGE_BYTES: usize = 8388608;

/// Longest response that is read from a session.
pub const MAX_SESSION_RESPONSE_BYTES: usize = 16777216;

/// How long an application may take to introduce itself, in nanoseconds.
pub const HANDSHAKE_TIMEOUT: u128 = 5_000_000_000;

/// How long to rest between two looks at an application, in nanoseconds.
pub const REST: u128 = 10_000_000;

/// The capability of an application that answers snapshots.
pub const SNAPSHOT_CAPABILITY: &'static str = "semantic.snapshot";

/// Why a semantic deadline cannot be kept.
#[derive(Clone, Copy, Debug, PartialEq, Eq, Structural)]
pub enum DeadlineError {
    ZeroTimeout,
    ZeroSnapshotTimeout,
    Expired,
}

impl DeadlineError {
    /// What the error says.
    pub open spec fn says(self) -> Seq<char> {
        match self {
            DeadlineError::ZeroTimeout => "semantic timeout must be greater than zero"@,
            DeadlineError::ZeroSnapshotTimeout => "semantic snapshot timeout must be greater than zero"@,
            DeadlineError::Expired => "application semantic timed out before it was handled"@,
        }
    }

    /// Writes out the error.
    pub fn message(self) -> (message: String)
        ensures
            message@ == self.says(),
    {
        match self {
            DeadlineError::ZeroTimeout => "semantic timeout must be greater than zero".to_owned(),
            DeadlineError::ZeroSnapshotTimeout => {
                "semantic snapshot timeout must be greater than zero".to_owned()
            },
            DeadlineError::Expired => {
                "application semantic timed out before it was handled".to_owned()
            },
        }
    }
}

/// How many names are tried for the socket of a provider.
pub const SOCKET_TRIES: u32 = 100;

/// Says that every name that was tried for the socket of a provider is taken.
pub const NO_UNIQUE_SOCKET: &'static str = "could not allocate a unique application semantic socket";

/// The file name of a provider's socket: the process that binds it, and a number that the process
/// uses once.
pub fn socket_file(process: u32, id: u64) -> (name: String)
    ensures
        name@ == "semantic-"@ + text::decimal_text(process as nat) + "-"@ + text::decimal_text(
            id as nat,
        ) + ".semantic"@,
{
    let mut name = explained("semantic-", text::decimal(process as u64).as_str());
    name.append("-");
    name.append(text::decimal(id).as_str());
    name.append(".semantic");
    name
}

/// The search for a name of a provider's socket that is not taken.
#[derive(Clone, Copy, Debug, PartialEq, Eq, Structural)]
pub struct SocketSearch {
    /// How many names were tried.
    pub tried: u32,
}

impl SocketSearch {
    /// Nothing was tried yet.
    pub fn begin() -> (search: SocketSearch)
        ensures
            search.tried == 0,
    {
        SocketSearch { tried: 0 }
    }

    /// Whether one more name is tried: the first one, or another because the last was taken.
    pub fn go_on(&mut self) -> (more: bool)
        ensures
            more == (old(self).tried < SOCKET_TRIES),
            final(self).tried == if more {
                old(self).tried + 1
            } else {
                old(self).tried as int
            },
    {
        if self.tried < SOCKET_TRIES {
            self.tried += 1;
            true
        } else {
            false
        }
    }
}

/// The moment, in milliseconds of the system clock, by which an answer is due. `timeout` is in
/// nanoseconds.
pub fn deadline_unix_ms(timeout: u128, now_ms: u64) -> (result: Result<u64, DeadlineError>)
    ensures
        result == if timeout == 0 {
            Err::<u64, DeadlineError>(DeadlineError::ZeroTimeout)
        } else if now_ms + (timeout / 1_000_000) as u64 > u64::MAX {
            Ok(u64::MAX)
        } else {
            Ok((now_ms + (timeout / 1_000_000) as u64) as u64)
        },
{
    if timeout == 0 {
        return Err(DeadlineError::ZeroTimeout);
    }
    let milliseconds: u64 = (timeout / 1_000_000) as u64;
    Ok(now_ms.saturating_add(milliseconds))
}

/// How many milliseconds are left until a deadline. Nothing is started that is already late.
pub fn remaining(deadline_unix_ms: u64, now_ms: u64) -> (result: Result<u64, DeadlineError>)
    ensures
        result == if deadline_unix_ms <= now_ms {
            Err::<u64, DeadlineError>(DeadlineError::Expired)
        } else {
            Ok((deadline_unix_ms - now_ms) as u64)
        },
{
    let timeout_ms: u64 = deadline_unix_ms.saturating_sub(now_ms);
    if timeout_ms == 0 {
        return Err(DeadlineError::Expired);
    }
    Ok(timeout_ms)
}

/// A deadline that was computed a moment ago leaves no more than the timeout it was made of, and
/// as long as the clock has not reached it, it leaves what has not passed.
pub proof fn lemma_deadline_leaves_the_rest(timeout: u128, now_ms: u64, later_ms: u64)
    requires
        0 < timeout,
        now_ms <= later_ms,
        now_ms + timeout / 1_000_000 <= u64::MAX,
        later_ms < now_ms + timeout / 1_000_000,
    ensures
        ({
            let deadline = (now_ms + (timeout / 1_000_000) as u64) as u64;
            deadline - later_ms == timeout / 1_000_000 - (later_ms - now_ms)
        }),
{
}

/// Whether a byte is ASCII white space.
pub open spec fn ascii_space(byte: u8) -> bool {
    byte == 9 || byte == 10 || byte == 12 || byte == 13 || byte == 32
}

/// Where the first line of `bytes` ends, looking from `from` on.
pub open spec fn line_end(bytes: Seq<u8>, from: int) -> Option<int>
    decreases bytes.len() - from,
{
    if from < 0 || from >= bytes.len() {
        None
    } else if bytes[from] == 10 {
        Some(from)
    } else {
        line_end(bytes, from + 1)
    }
}

/// Whether nothing but white space follows `end`.
pub open spec fn blank_after(bytes: Seq<u8>, end: int) -> bool {
    forall|i: int| end < i < bytes.len() ==> ascii_space(#[trigger] bytes[i])
}

/// Finds the end of the first line.
fn find_line_end(bytes: &[u8]) -> (end: Option<usize>)
    ensures
        end is Some <==> line_end(bytes@, 0) is Some,
        end matches Some(end) ==> line_end(bytes@, 0) == Some(end as int) && end < bytes@.len(),
{
    let mut index: usize = 0;
    while index < bytes.len()
        invariant
            index <= bytes@.len(),
            line_end(bytes@, 0) == line_end(bytes@, index as int),
        decreases bytes@.len() - index,
    {
        if bytes[index] == 10 {
            return Some(index);
        }
        index += 1;
    }
    None
}

/// Whether nothing but white space follows `end`.
fn is_blank_after(bytes: &[u8], end: usize) -> (blank: bool)
    requires
        end < bytes@.len(),
    ensures
        blank == blank_after(bytes@, end as int),
{
    let length: usize = bytes.len();
    let mut index: usize = end + 1;
    while index < length
        invariant
            length == bytes@.len(),
            end < index <= length,
            forall|i: int| end < i < index ==> ascii_space(#[trigger] bytes@[i]),
        decreases length - index,
    {
        let byte: u8 = bytes[index];
        if !(byte == 9 || byte == 10 || byte == 12 || byte == 13 || byte == 32) {
            return false;
        }
        index += 1;
    }
    true
}

/// An application with a semantic provider.
#[derive(Debug)]
pub struct Application {
    pub name: String,
    pub version: Option<String>,
}

impl Application {
    /// How the application is called: its name, and its version if it has one.
    pub open spec fn called(&self) -> Seq<char> {
        match self.version {
            Some(version) => self.name@ + " "@ + version@,
            None => self.name@,
        }
    }

    /// How the application is called.
    pub fn identity(&self) -> (identity: String)
        ensures
            identity@ == self.called(),
    {
        let mut identity = self.name.clone();
        if let Some(version) = &self.version {
            identity.append(" ");
            identity.append(version.as_str());
        }
        identity
    }
}

/// How an application introduces itself.
#[derive(Debug)]
pub struct Hello {
    pub kind: String,
    pub protocol_version: u8,
    pub application: Application,
    pub capabilities: Vec<String>,
}

/// Why an introduction is refused.
#[derive(Clone, Copy, Debug, PartialEq, Eq, Structural)]
pub enum HelloError {
    NotHello,
    Version(u8),
    NoName,
    EmptyCapability,
}

impl HelloError {
    /// What the error says.
    pub open spec fn says(self) -> Seq<char> {
        match self {
            HelloError::NotHello => "first application semantic message must be a hello"@,
            HelloError::Version(version) => "unsupported application semantic protocol version "@
                + text::decimal_text(version as nat),
            HelloError::NoName => "application semantic hello requires a nonempty application name"@,
            HelloError::EmptyCapability => "application semantic capabilities must not be empty"@,
        }
    }

    /// Writes out the error.
    pub fn message(self) -> (message: String)
        ensures
            message@ == self.says(),
    {
        match self {
            HelloError::NotHello => {
                "first application semantic message must be a hello".to_owned()
            },
            HelloError::Version(version) => {
                let mut message = "unsupported application semantic protocol version ".to_owned();
                message.append(text::decimal(version as u64).as_str());
                message
            },
            HelloError::NoName => {
                "application semantic hello requires a nonempty application name".to_owned()
            },
            HelloError::EmptyCapability => {
                "application semantic capabilities must not be empty".to_owned()
            },
        }
    }
}

impl Hello {
    /// What is wrong with the introduction. The first complaint is told.
    pub open spec fn complaint(&self) -> Option<HelloError> {
        if self.kind@ != "hello"@ {
            Some(HelloError::NotHello)
        } else if self.protocol_version != PROTOCOL_VERSION {
            Some(HelloError::Version(self.protocol_version))
        } else if self.application.name@.len() == 0 {
            Some(HelloError::NoName)
        } else if exists|i: int|
            0 <= i < self.capabilities@.len() && (#[trigger] self.capabilities@[i])@.len() == 0 {
            Some(HelloError::EmptyCapability)
        } else {
            None
        }
    }

    /// Looks for what is wrong with the introduction.
    pub fn check(&self) -> (result: Result<(), HelloError>)
        ensures
            result == match self.complaint() {
                Some(error) => Err::<(), HelloError>(error),
                None => Ok(()),
            },
    {
        if !text::same_text(self.kind.as_str(), "hello") {
            return Err(HelloError::NotHello);
        }
        if self.protocol_version != PROTOCOL_VERSION {
            return Err(HelloError::Version(self.protocol_version));
        }
        if self.application.name.as_str().is_empty() {
            return Err(HelloError::NoName);
        }
        let mut index: usize = 0;
        while index < self.capabilities.len()
            invariant
                index <= self.capabilities@.len(),
                forall|i: int| 0 <= i < index ==> (#[trigger] self.capabilities@[i])@.len() > 0,
                self.kind@ == "hello"@,
                self.protocol_version == PROTOCOL_VERSION,
                self.application.name@.len() > 0,
            decreases self.capabilities@.len() - index,
        {
            if self.capabilities[index].as_str().is_empty() {
                return Err(HelloError::EmptyCapability);
            }
            index += 1;
        }
        Ok(())
    }
}

/// Whether `capabilities` holds `capability`.
pub open spec fn holds(capabilities: Seq<String>, capability: Seq<char>) -> bool {
    exists|i: int| 0 <= i < capabilities.len() && (#[trigger] capabilities[i])@ == capability
}

/// Looks for a capability.
pub fn has_capability(capabilities: &Vec<String>, capability: &str) -> (found: bool)
    ensures
        found == holds(capabilities@, capability@),
{
    let mut index: usize = 0;
    while index < capabilities.len()
        invariant
            index <= capabilities@.len(),
            forall|i: int| 0 <= i < index ==> (#[trigger] capabilities@[i])@ != capability@,
        decreases capabilities@.len() - index,
    {
        if text::same_text(capabilities[index].as_str(), capability) {
            return true;
        }
        index += 1;
    }
    false
}

/// A connection that has not introduced itself yet. Times are in nanoseconds of one clock.
#[derive(Debug)]
pub struct PendingConnection {
    pub input: Vec<u8>,
    pub accepted_at: u128,
}

/// A connection to an application that has introduced itself.
#[derive(Debug)]
pub struct Connection {
    pub input: Vec<u8>,
    pub application: Application,
    pub capabilities: Vec<String>,
    pub next_id: u64,
    pub pending_id: Option<u64>,
}

/// What is known of the application's semantic provider. The streams themselves are held
/// elsewhere: one for `pending`, one for `greeting` or `connection`.
#[derive(Debug)]
pub struct Host {
    pub pending: Option<PendingConnection>,
    /// The introduction that was accepted and is not yet answered.
    pub greeting: Option<Hello>,
    pub connection: Option<Connection>,
    pub failure: Option<String>,
}

/// Model of [`PendingConnection`].
pub struct PendingView {
    pub input: Seq<u8>,
    pub accepted_at: u128,
}

/// Model of [`Connection`].
pub struct ConnectionView {
    pub input: Seq<u8>,
    pub application: Application,
    pub capabilities: Seq<String>,
    pub next_id: u64,
    pub pending_id: Option<u64>,
}

/// Model of [`Host`].
pub struct HostView {
    pub pending: Option<PendingView>,
    pub greeting: Option<Hello>,
    pub connection: Option<ConnectionView>,
    pub failure: Option<Seq<char>>,
}

impl View for Host {
    type V = HostView;

    open spec fn view(&self) -> HostView {
        HostView {
            pending: match self.pending {
                Some(pending) => Some(
                    PendingView { input: pending.input@, accepted_at: pending.accepted_at },
                ),
                None => None,
            },
            greeting: self.greeting,
            connection: match self.connection {
                Some(connection) => Some(
                    ConnectionView {
                        input: connection.input@,
                        application: connection.application,
                        capabilities: connection.capabilities@,
                        next_id: connection.next_id,
                        pending_id: connection.pending_id,
                    },
                ),
                None => None,
            },
            failure: match self.failure {
                Some(failure) => Some(failure@),
                None => None,
            },
        }
    }
}

/// What a look at a stream brings.
#[derive(Debug)]
pub enum ReadEvent {
    Closed,
    Bytes(Vec<u8>),
    WouldBlock,
    Failed(String),
}

/// What a look at a connection's stream shows, without taking anything from it.
#[derive(Debug)]
pub enum Peek {
    Closed,
    Data,
    WouldBlock,
    Failed(String),
}

/// What happened while the provider's socket is looked after.
#[derive(Debug)]
pub enum PumpEvent {
    Peeked(Peek),
    /// A connection was accepted and configured.
    Accepted,
    /// An accepted connection could not be configured.
    ConfigureFailed(String),
    /// No further connection waits.
    NoMore,
    AcceptFailed(String),
    Read(ReadEvent),
    Parsed(Hello),
    ParseFailed(String),
    /// The introduction was answered.
    Greeted,
    GreetFailed(String),
}

/// What to do next while the provider's socket is looked after.
#[derive(Clone, Copy, Debug, PartialEq, Eq, Structural)]
pub enum PumpNext {
    /// Look at the connection's stream.
    Peek,
    /// Accept a connection in place of the pending one.
    Accept,
    /// Read from the pending connection.
    Read,
    /// Parse that many bytes of the pending connection's input as an introduction.
    Parse { length: usize },
    /// Answer the introduction.
    Greet,
    Done,
}

impl HostView {
    /// Gives up the pending connection.
    pub open spec fn rejecting(self, failure: Seq<char>) -> HostView {
        HostView { pending: None, greeting: None, failure: Some(failure), ..self }
    }

    /// Gives up the connection.
    pub open spec fn losing(self, failure: Seq<char>) -> HostView {
        HostView { connection: None, failure: Some(failure), ..self }
    }

    /// Gives up everything.
    pub open spec fn aborting(self, failure: Seq<char>) -> HostView {
        HostView { pending: None, greeting: None, connection: None, failure: Some(failure) }
    }

    /// What the pending connection's input amounts to once more of it was read.
    pub open spec fn hello_read(self, bytes: Seq<u8>) -> (HostView, PumpNext) {
        match self.pending {
            None => (self, PumpNext::Done),
            Some(pending) => {
                let input = pending.input + bytes;
                let host = HostView {
                    pending: Some(PendingView { input, ..pending }),
                    ..self
                };
                if input.len() > MAX_MESSAGE_BYTES {
                    (
                        host.rejecting(
                            "application semantic hello exceeds "@ + text::decimal_text(
                                MAX_MESSAGE_BYTES as nat,
                            ) + " bytes"@,
                        ),
                        PumpNext::Done,
                    )
                } else {
                    match line_end(input, 0) {
                        None => (host, PumpNext::Read),
                        Some(end) => if blank_after(input, end) {
                            (host, PumpNext::Parse { length: end as usize })
                        } else {
                            (
                                host.rejecting(
                                    "application sent semantic data before the handshake completed"@,
                                ),
                                PumpNext::Done,
                            )
                        },
                    }
                }
            },
        }
    }

    /// The host after `event`, and what to do next.
    pub open spec fn pumped(self, event: PumpEvent, now: u128) -> (HostView, PumpNext) {
        match event {
            PumpEvent::Peeked(peek) => match peek {
                Peek::Closed => (
                    self.losing("application semantic provider disconnected"@),
                    PumpNext::Accept,
                ),
                Peek::Data | Peek::WouldBlock => (self, PumpNext::Done),
                Peek::Failed(error) => (
                    self.losing("inspect application semantic provider: "@ + error@),
                    PumpNext::Accept,
                ),
            },
            PumpEvent::Accepted => (
                HostView {
                    pending: Some(PendingView { input: Seq::empty(), accepted_at: now }),
                    ..self
                },
                PumpNext::Accept,
            ),
            PumpEvent::ConfigureFailed(error) => (
                HostView {
                    failure: Some("configure application semantic connection: "@ + error@),
                    ..self
                },
                PumpNext::Done,
            ),
            PumpEvent::AcceptFailed(error) => (
                HostView {
                    failure: Some("accept application semantic connection: "@ + error@),
                    ..self
                },
                PumpNext::Done,
            ),
            PumpEvent::NoMore => match self.pending {
                None => (self, PumpNext::Done),
                Some(pending) => if now - pending.accepted_at >= HANDSHAKE_TIMEOUT {
                    (
                        self.rejecting("application semantic handshake timed out"@),
                        PumpNext::Done,
                    )
                } else {
                    (self, PumpNext::Read)
                },
            },
            PumpEvent::Read(read) => match read {
                ReadEvent::Closed => (
                    self.rejecting(
                        "application disconnected before completing the semantic handshake"@,
                    ),
                    PumpNext::Done,
                ),
                ReadEvent::WouldBlock => (self, PumpNext::Done),
                ReadEvent::Failed(error) => (
                    self.rejecting("read application semantic hello: "@ + error@),
                    PumpNext::Done,
                ),
                ReadEvent::Bytes(bytes) => self.hello_read(bytes@),
            },
            PumpEvent::ParseFailed(error) => (
                self.rejecting("parse application semantic hello: "@ + error@),
                PumpNext::Done,
            ),
            PumpEvent::Parsed(hello) => match hello.complaint() {
                Some(error) => (self.rejecting(error.says()), PumpNext::Done),
                None => (
                    HostView { pending: None, greeting: Some(hello), ..self },
                    PumpNext::Greet,
                ),
            },
            PumpEvent::GreetFailed(error) => (self.rejecting(error@), PumpNext::Done),
            PumpEvent::Greeted => match self.greeting {
                None => (self, PumpNext::Done),
                Some(hello) => (
                    HostView {
                        pending: self.pending,
                        greeting: None,
                        connection: Some(
                            ConnectionView {
                                input: Seq::empty(),
                                application: hello.application,
                                capabilities: hello.capabilities@,
                                next_id: 1,
                                pending_id: None,
                            },
                        ),
                        failure: None,
                    },
                    PumpNext::Done,
                ),
            },
        }
    }
}

/// `prefix`, then what an outside error says.
fn explained(prefix: &str, error: &str) -> (message: String)
    ensures
        message@ == prefix@ + error@,
{
    let mut message = prefix.to_owned();
    message.append(error);
    message
}

impl Host {
    /// A host that no application has connected to.
    pub fn new() -> (host: Host)
        ensures
            host@ == (HostView { pending: None, greeting: None, connection: None, failure: None }),
    {
        Host { pending: None, greeting: None, connection: None, failure: None }
    }

    /// What to do first when the provider's socket is looked after.
    pub fn pump(&self) -> (next: PumpNext)
        ensures
            next == if self@.connection is Some {
                PumpNext::Peek
            } else {
                PumpNext::Accept
            },
    {
        if self.connection.is_some() {
            PumpNext::Peek
        } else {
            PumpNext::Accept
        }
    }

    fn reject(&mut self, failure: String)
        ensures
            final(self)@ == old(self)@.rejecting(failure@),
    {
        self.pending = None;
        self.greeting = None;
        self.failure = Some(failure);
    }

    fn lose(&mut self, failure: String)
        ensures
            final(self)@ == old(self)@.losing(failure@),
    {
        self.connection = None;
        self.failure = Some(failure);
    }

    fn read_hello(&mut self, bytes: &[u8]) -> (next: PumpNext)
        ensures
            (final(self)@, next) == old(self)@.hello_read(bytes@),
    {
        let mut pending = match self.pending.take() {
            None => {
                return PumpNext::Done;
            },
            Some(pending) => pending,
        };
        text::append_bytes(&mut pending.input, bytes);
        if pending.input.len() > MAX_MESSAGE_BYTES {
            let mut message = explained(
                "application semantic hello exceeds ",
                text::decimal(MAX_MESSAGE_BYTES as u64).as_str(),
            );
            message.append(" bytes");
            self.reject(message);
            return PumpNext::Done;
        }
        match find_line_end(pending.input.as_slice()) {
            None => {
                self.pending = Some(pending);
                PumpNext::Read
            },
            Some(end) => {
                if !is_blank_after(pending.input.as_slice(), end) {
                    self.reject(
                        "application sent semantic data before the handshake completed".to_owned(),
                    );
                    return PumpNext::Done;
                }
                self.pending = Some(pending);
                PumpNext::Parse { length: end }
            },
        }
    }

    /// Takes note of what happened while the provider's socket is looked after, and says what to
    /// do next.
    pub fn pump_step(&mut self, event: PumpEvent, now: u128) -> (next: PumpNext)
        ensures
            (final(self)@, next) == old(self)@.pumped(event, now),
    {
        match event {
            PumpEvent::Peeked(Peek::Closed) => {
                self.lose("application semantic provider disconnected".to_owned());
                PumpNext::Accept
            },
            PumpEvent::Peeked(Peek::Data) | PumpEvent::Peeked(Peek::WouldBlock) => PumpNext::Done,
            PumpEvent::Peeked(Peek::Failed(error)) => {
                self.lose(explained("inspect application semantic provider: ", error.as_str()));
                PumpNext::Accept
            },
            PumpEvent::Accepted => {
                self.pending = Some(PendingConnection { input: Vec::new(), accepted_at: now });
                PumpNext::Accept
            },
            PumpEvent::ConfigureFailed(error) => {
                self.failure = Some(
                    explained("configure application semantic connection: ", error.as_str()),
                );
                PumpNext::Done
            },
            PumpEvent::AcceptFailed(error) => {
                self.failure = Some(
                    explained("accept application semantic connection: ", error.as_str()),
                );
                PumpNext::Done
            },
            PumpEvent::NoMore => {
                let accepted_at: u128 = match &self.pending {
                    None => {
                        return PumpNext::Done;
                    },
                    Some(pending) => pending.accepted_at,
                };
                if now >= accepted_at && now - accepted_at >= HANDSHAKE_TIMEOUT {
                    self.reject("application semantic handshake timed out".to_owned());
                    PumpNext::Done
                } else {
                    PumpNext::Read
                }
            },
            PumpEvent::Read(ReadEvent::Closed) => {
                self.reject(
                    "application disconnected before completing the semantic handshake".to_owned(),
                );
                PumpNext::Done
            },
            PumpEvent::Read(ReadEvent::WouldBlock) => PumpNext::Done,
            PumpEvent::Read(ReadEvent::Failed(error)) => {
                self.reject(explained("read application semantic hello: ", error.as_str()));
                PumpNext::Done
            },
            PumpEvent::Read(ReadEvent::Bytes(bytes)) => self.read_hello(bytes.as_slice()),
            PumpEvent::ParseFailed(error) => {
                self.reject(explained("parse application semantic hello: ", error.as_str()));
                PumpNext::Done
            },
            PumpEvent::Parsed(hello) => {
                match hello.check() {
                    Err(error) => {
                        self.reject(error.message());
                        PumpNext::Done
                    },
                    Ok(()) => {
                        self.pending = None;
                        self.greeting = Some(hello);
                        PumpNext::Greet
                    },
                }
            },
            PumpEvent::GreetFailed(error) => {
                self.reject(error);
                PumpNext::Done
            },
            PumpEvent::Greeted => {
                match self.greeting.take() {
                    None => PumpNext::Done,
                    Some(hello) => {
                        self.connection = Some(
                            Connection {
                                input: Vec::new(),
                                application: hello.application,
                                capabilities: hello.capabilities,
                                next_id: 1,
                                pending_id: None,
                            },
                        );
                        self.failure = None;
                        PumpNext::Done
                    },
                }
            },
        }
    }
}

/// Where a snapshot exchange stands.
#[derive(Clone, Copy, Debug, PartialEq, Eq, Structural)]
pub enum SnapshotPhase {
    /// Waiting until the application has introduced itself.
    Ready,
    /// The request is being written.
    Write,
    /// Waiting for the answer.
    Poll,
    /// The session has ended: the answer must already be there.
    LastPoll,
    Finished,
}

/// An exchange of one snapshot.
#[derive(Clone, Copy, Debug, PartialEq, Eq, Structural)]
pub struct Exchange {
    pub deadline: u128,
    pub id: u64,
    pub phase: SnapshotPhase,
}

/// What an application answers.
#[allow(inconsistent_fields)]
#[derive(Debug)]
pub enum SnapshotReply {
    Value { id: u64, value: serde_json::Value },
    Error { id: u64, code: String, message: String },
}

/// What happened during a snapshot exchange.
#[derive(Debug)]
pub enum SnapshotEvent {
    /// The provider's socket and then the session were looked after.
    Pumped { ended: bool },
    /// The session was looked after.
    SessionPumped { ended: bool },
    Written,
    /// The request could not be written: what went wrong, and what brought it about where
    /// something else did.
    WriteFailed { message: String, cause: Option<String> },
    Read(ReadEvent),
    Parsed(SnapshotReply),
    ParseFailed(String),
    Rested,
}

/// What to do next during a snapshot exchange.
#[derive(Debug)]
pub enum SnapshotNext {
    /// Look after the provider's socket, then after the session.
    Pump,
    /// Look after the session.
    PumpSession,
    /// Write the request with this number.
    Write { id: u64 },
    /// Read from the connection.
    Read,
    /// Parse that many bytes of the connection's input as an answer.
    Parse { length: usize },
    /// Rest for so many nanoseconds.
    Rest(u128),
    /// The application has no snapshot to give.
    Nothing,
    Value(serde_json::Value),
    Failed(String),
}

/// Model of [`SnapshotNext`].
pub enum NextView {
    Pump,
    PumpSession,
    Write(u64),
    Read,
    Parse(int),
    Rest(u128),
    Nothing,
    Value(serde_json::Value),
    Failed(Seq<char>),
}

impl View for SnapshotNext {
    type V = NextView;

    open spec fn view(&self) -> NextView {
        match *self {
            SnapshotNext::Pump => NextView::Pump,
            SnapshotNext::PumpSession => NextView::PumpSession,
            SnapshotNext::Write { id } => NextView::Write(id),
            SnapshotNext::Read => NextView::Read,
            SnapshotNext::Parse { length } => NextView::Parse(length as int),
            SnapshotNext::Rest(duration) => NextView::Rest(duration),
            SnapshotNext::Nothing => NextView::Nothing,
            SnapshotNext::Value(value) => NextView::Value(value),
            SnapshotNext::Failed(message) => NextView::Failed(message@),
        }
    }
}

/// Host, exchange and next action.
pub type Step = (HostView, Exchange, NextView);

/// Says that an exchange took too long.
pub open spec fn timed_out(id: u64) -> Seq<char> {
    "application semantic snapshot "@ + text::decimal_text(id as nat) + " timed out"@
}

impl Exchange {
    /// The exchange, over.
    pub open spec fn over(self) -> Exchange {
        Exchange { phase: SnapshotPhase::Finished, ..self }
    }

    /// The exchange fails, and with it the connection.
    pub open spec fn lost(self, host: HostView, failure: Seq<char>) -> Step {
        (host.losing(failure), self.over(), NextView::Failed(failure))
    }

    /// The exchange fails because of an outside error: the host keeps what was being done, the
    /// failure tells the error too.
    pub open spec fn broken(self, host: HostView, doing: Seq<char>, error: Seq<char>) -> Step {
        (host.losing(doing), self.over(), NextView::Failed(doing + ": "@ + error))
    }

    /// The application is there, or late, or not there yet.
    pub open spec fn readied(self, host: HostView, ended: bool, now: u128) -> Step {
        if ended {
            (
                host,
                self.over(),
                NextView::Failed(
                    "session ended before its application semantic provider became ready"@,
                ),
            )
        } else if now >= self.deadline {
            let message = "timed out waiting for application semantic provider"@ + match host.failure {
                Some(failure) => ": "@ + failure,
                None => ""@,
            };
            (host.aborting(message), self.over(), NextView::Failed(message))
        } else {
            match host.connection {
                None => (host, self, NextView::Rest(rest_within(self.deadline, now, REST))),
                Some(connection) => if !holds(connection.capabilities, SNAPSHOT_CAPABILITY@) {
                    (host, self.over(), NextView::Nothing)
                } else if connection.pending_id is Some {
                    (
                        host,
                        self.over(),
                        NextView::Failed("application semantic is already in progress"@),
                    )
                } else {
                    (
                        HostView {
                            connection: Some(
                                ConnectionView {
                                    next_id: if connection.next_id == u64::MAX {
                                        0
                                    } else {
                                        (connection.next_id + 1) as u64
                                    },
                                    ..connection
                                },
                            ),
                            ..host
                        },
                        Exchange { id: connection.next_id, phase: SnapshotPhase::Write, ..self },
                        NextView::Write(connection.next_id),
                    )
                },
            }
        }
    }

    /// One more read of the connection, unless it is too late.
    pub open spec fn reading(self, host: HostView, now: u128) -> Step {
        if now >= self.deadline {
            self.lost(host, timed_out(self.id))
        } else {
            (host, self, NextView::Read)
        }
    }

    /// A new look at the connection, unless it is too late.
    pub open spec fn polling(self, host: HostView, now: u128) -> Step {
        if now >= self.deadline {
            let message = "application semantic snapshot timed out"@;
            (host.aborting(message), self.over(), NextView::Failed(message))
        } else {
            (host, self, NextView::Read)
        }
    }

    /// There is no answer yet.
    pub open spec fn unanswered(self, host: HostView) -> Step {
        if self.phase == SnapshotPhase::LastPoll {
            (
                host,
                self.over(),
                NextView::Failed("session ended while answering application semantic snapshot"@),
            )
        } else {
            (host, self, NextView::PumpSession)
        }
    }

    /// What the connection's input amounts to once more of it was read.
    pub open spec fn answer_read(self, host: HostView, bytes: Seq<u8>, now: u128) -> Step {
        match host.connection {
            None => (
                host,
                self.over(),
                NextView::Failed("application semantic provider disconnected"@),
            ),
            Some(connection) => {
                let input = connection.input + bytes;
                let read = HostView {
                    connection: Some(ConnectionView { input, ..connection }),
                    ..host
                };
                if input.len() > MAX_MESSAGE_BYTES {
                    self.lost(
                        read,
                        "application semantic response exceeds "@ + text::decimal_text(
                            MAX_MESSAGE_BYTES as nat,
                        ) + " bytes"@,
                    )
                } else if now >= self.deadline {
                    self.lost(read, timed_out(self.id))
                } else {
                    match line_end(input, 0) {
                        None => (read, self, NextView::Read),
                        Some(end) => if blank_after(input, end) {
                            (read, self, NextView::Parse(end))
                        } else {
                            self.lost(read, "application sent more than one semantic response"@)
                        },
                    }
                }
            },
        }
    }

    /// The answer, if it is in time and answers this request.
    pub open spec fn answered(self, host: HostView, reply: SnapshotReply, now: u128) -> Step {
        match host.connection {
            None => (
                host,
                self.over(),
                NextView::Failed("application semantic provider disconnected"@),
            ),
            Some(connection) => if now >= self.deadline {
                self.lost(host, timed_out(self.id))
            } else {
                let idle = HostView {
                    connection: Some(
                        ConnectionView { input: Seq::empty(), pending_id: None, ..connection },
                    ),
                    ..host
                };
                match reply {
                    SnapshotReply::Value { id, value } => if id == self.id {
                        (idle, self.over(), NextView::Value(value))
                    } else {
                        self.lost(idle, mismatch(id, self.id))
                    },
                    SnapshotReply::Error { id, code, message } => if id == self.id {
                        (
                            idle,
                            self.over(),
                            NextView::Failed(
                                "application semantic snapshot failed ("@ + code@ + "): "@
                                    + message@,
                            ),
                        )
                    } else {
                        self.lost(idle, mismatch(id, self.id))
                    },
                }
            },
        }
    }

    /// The connection's stream brought something.
    pub open spec fn read(self, host: HostView, event: ReadEvent, now: u128) -> Step {
        match event {
            ReadEvent::Closed => self.lost(
                host,
                "application disconnected while answering semantic "@ + text::decimal_text(
                    self.id as nat,
                ),
            ),
            ReadEvent::Failed(error) => self.broken(
                host,
                "read application semantic response"@,
                error@,
            ),
            ReadEvent::WouldBlock => self.unanswered(host),
            ReadEvent::Bytes(bytes) => self.answer_read(host, bytes@, now),
        }
    }

    /// The exchange after `event`, and what to do next. An event that does not belong to the
    /// phase ends the exchange without a snapshot.
    pub open spec fn stepped(self, host: HostView, event: SnapshotEvent, now: u128) -> Step {
        match (self.phase, event) {
            (SnapshotPhase::Ready, SnapshotEvent::Pumped { ended }) => self.readied(
                host,
                ended,
                now,
            ),
            (SnapshotPhase::Ready, SnapshotEvent::Rested) => (host, self, NextView::Pump),
            (SnapshotPhase::Write, SnapshotEvent::Written) => match host.connection {
                None => (
                    host,
                    self.over(),
                    NextView::Failed("application semantic provider disconnected"@),
                ),
                Some(connection) => (Exchange { phase: SnapshotPhase::Poll, ..self }).polling(
                    HostView {
                        connection: Some(
                            ConnectionView { pending_id: Some(self.id), ..connection },
                        ),
                        ..host
                    },
                    now,
                ),
            },
            (SnapshotPhase::Write, SnapshotEvent::WriteFailed { message, cause }) => match cause {
                Some(cause) => self.broken(host, message@, cause@),
                None => self.lost(host, message@),
            },
            (SnapshotPhase::Poll, SnapshotEvent::Read(read)) => self.read(host, read, now),
            (SnapshotPhase::LastPoll, SnapshotEvent::Read(read)) => self.read(host, read, now),
            (SnapshotPhase::Poll, SnapshotEvent::Parsed(reply)) => self.answered(host, reply, now),
            (SnapshotPhase::LastPoll, SnapshotEvent::Parsed(reply)) => self.answered(
                host,
                reply,
                now,
            ),
            (SnapshotPhase::Poll, SnapshotEvent::ParseFailed(error)) => self.broken(
                host,
                "parse application semantic response"@,
                error@,
            ),
            (SnapshotPhase::LastPoll, SnapshotEvent::ParseFailed(error)) => self.broken(
                host,
                "parse application semantic response"@,
                error@,
            ),
            (SnapshotPhase::Poll, SnapshotEvent::SessionPumped { ended }) => if ended {
                (Exchange { phase: SnapshotPhase::LastPoll, ..self }).reading(host, now)
            } else {
                (host, self, NextView::Rest(rest_within(self.deadline, now, REST)))
            },
            (SnapshotPhase::Poll, SnapshotEvent::Rested) => self.polling(host, now),
            _ => (host, self.over(), NextView::Nothing),
        }
    }
}

/// Says that an answer belongs to another request.
pub open spec fn mismatch(response_id: u64, id: u64) -> Seq<char> {
    "application semantic response id "@ + text::decimal_text(response_id as nat)
        + " does not match request id "@ + text::decimal_text(id as nat)
}

fn timed_out_message(id: u64) -> (message: String)
    ensures
        message@ == timed_out(id),
{
    let mut message = explained("application semantic snapshot ", text::decimal(id).as_str());
    message.append(" timed out");
    message
}

fn mismatch_message(response_id: u64, id: u64) -> (message: String)
    ensures
        message@ == mismatch(response_id, id),
{
    let mut message = explained(
        "application semantic response id ",
        text::decimal(response_id).as_str(),
    );
    message.append(" does not match request id ");
    message.append(text::decimal(id).as_str());
    message
}

/// Whether an application may be asked for a snapshot with this timeout, in nanoseconds.
pub fn check_timeout(timeout: u128) -> (result: Result<(), DeadlineError>)
    ensures
        result == if timeout == 0 {
            Err::<(), DeadlineError>(DeadlineError::ZeroSnapshotTimeout)
        } else {
            Ok(())
        },
{
    if timeout == 0 {
        Err(DeadlineError::ZeroSnapshotTimeout)
    } else {
        Ok(())
    }
}

impl Host {
    /// Whether an application has introduced itself.
    pub fn is_ready(&self) -> (ready: bool)
        ensures
            ready == self@.connection is Some,
    {
        self.connection.is_some()
    }

    /// Begins a snapshot exchange, after the provider's socket was looked after. There is none
    /// when no application has connected. The exchange starts with [`SnapshotNext::Pump`].
    pub fn snapshot(&self, timeout: u128, now: u128) -> (exchange: Option<Exchange>)
        requires
            now + timeout <= u128::MAX,
        ensures
            exchange == if self@.connection is None && self@.pending is None {
                None
            } else {
                Some(
                    Exchange {
                        deadline: (now + timeout) as u128,
                        id: 0,
                        phase: SnapshotPhase::Ready,
                    },
                )
            },
    {
        if self.connection.is_none() && self.pending.is_none() {
            return None;
        }
        Some(Exchange { deadline: now + timeout, id: 0, phase: SnapshotPhase::Ready })
    }

    fn abort(&mut self, failure: String)
        ensures
            final(self)@ == old(self)@.aborting(failure@),
    {
        self.pending = None;
        self.greeting = None;
        self.connection = None;
        self.failure = Some(failure);
    }
}

impl Exchange {
    fn lose(&mut self, host: &mut Host, failure: String) -> (next: SnapshotNext)
        ensures
            (final(host)@, *final(self), next@) == old(self).lost(old(host)@, failure@),
    {
        self.phase = SnapshotPhase::Finished;
        host.lose(failure.clone());
        SnapshotNext::Failed(failure)
    }

    fn break_off(&mut self, host: &mut Host, doing: &str, error: &str) -> (next: SnapshotNext)
        ensures
            (final(host)@, *final(self), next@) == old(self).broken(old(host)@, doing@, error@),
    {
        self.phase = SnapshotPhase::Finished;
        host.lose(doing.to_owned());
        let mut message = explained(doing, ": ");
        message.append(error);
        SnapshotNext::Failed(message)
    }

    fn disconnected(&mut self) -> (next: SnapshotNext)
        ensures
            *final(self) == old(self).over(),
            next@ == NextView::Failed("application semantic provider disconnected"@),
    {
        self.phase = SnapshotPhase::Finished;
        SnapshotNext::Failed("application semantic provider disconnected".to_owned())
    }

    fn ready(&mut self, host: &mut Host, ended: bool, now: u128) -> (next: SnapshotNext)
        ensures
            (final(host)@, *final(self), next@) == old(self).readied(old(host)@, ended, now),
    {
        if ended {
            self.phase = SnapshotPhase::Finished;
            return SnapshotNext::Failed(
                "session ended before its application semantic provider became ready".to_owned(),
            );
        }
        if now >= self.deadline {
            let mut message = "timed out waiting for application semantic provider".to_owned();
            match &host.failure {
                Some(failure) => {
                    let detail = explained(": ", failure.as_str());
                    message.append(detail.as_str());
                },
                None => {
                    message.append("");
                },
            }
            self.phase = SnapshotPhase::Finished;
            host.abort(message.clone());
            return SnapshotNext::Failed(message);
        }
        match host.connection.take() {
            None => SnapshotNext::Rest(rest_up_to(self.deadline, now, REST)),
            Some(mut connection) => {
                if !has_capability(&connection.capabilities, SNAPSHOT_CAPABILITY) {
                    host.connection = Some(connection);
                    self.phase = SnapshotPhase::Finished;
                    return SnapshotNext::Nothing;
                }
                if connection.pending_id.is_some() {
                    host.connection = Some(connection);
                    self.phase = SnapshotPhase::Finished;
                    return SnapshotNext::Failed(
                        "application semantic is already in progress".to_owned(),
                    );
                }
                let id: u64 = connection.next_id;
                connection.next_id = if id == u64::MAX {
                    0
                } else {
                    id + 1
                };
                host.connection = Some(connection);
                self.id = id;
                self.phase = SnapshotPhase::Write;
                SnapshotNext::Write { id }
            },
        }
    }

    fn poll(&mut self, host: &mut Host, now: u128) -> (next: SnapshotNext)
        ensures
            (final(host)@, *final(self), next@) == old(self).polling(old(host)@, now),
    {
        if now >= self.deadline {
            self.phase = SnapshotPhase::Finished;
            host.abort("application semantic snapshot timed out".to_owned());
            return SnapshotNext::Failed("application semantic snapshot timed out".to_owned());
        }
        SnapshotNext::Read
    }

    fn read_answer(&mut self, host: &mut Host, bytes: &[u8], now: u128) -> (next: SnapshotNext)
        ensures
            (final(host)@, *final(self), next@) == old(self).answer_read(old(host)@, bytes@, now),
    {
        let mut connection = match host.connection.take() {
            None => {
                return self.disconnected();
            },
            Some(connection) => connection,
        };
        text::append_bytes(&mut connection.input, bytes);
        let length: usize = connection.input.len();
        let end = find_line_end(connection.input.as_slice());
        let blank = match end {
            Some(end) => is_blank_after(connection.input.as_slice(), end),
            None => true,
        };
        host.connection = Some(connection);
        if length > MAX_MESSAGE_BYTES {
            let mut message = explained(
                "application semantic response exceeds ",
                text::decimal(MAX_MESSAGE_BYTES as u64).as_str(),
            );
            message.append(" bytes");
            return self.lose(host, message);
        }
        if now >= self.deadline {
            return self.lose(host, timed_out_message(self.id));
        }
        match end {
            None => SnapshotNext::Read,
            Some(end) => if blank {
                SnapshotNext::Parse { length: end }
            } else {
                self.lose(host, "application sent more than one semantic response".to_owned())
            },
        }
    }

    fn answer(&mut self, host: &mut Host, reply: SnapshotReply, now: u128) -> (next: SnapshotNext)
        ensures
            (final(host)@, *final(self), next@) == old(self).answered(old(host)@, reply, now),
    {
        if host.connection.is_none() {
            return self.disconnected();
        }
        if now >= self.deadline {
            return self.lose(host, timed_out_message(self.id));
        }
        match host.connection.take() {
            None => {},
            Some(mut connection) => {
                connection.input = Vec::new();
                connection.pending_id = None;
                host.connection = Some(connection);
            },
        }
        match reply {
            SnapshotReply::Value { id, value } => {
                if id != self.id {
                    return self.lose(host, mismatch_message(id, self.id));
                }
                self.phase = SnapshotPhase::Finished;
                SnapshotNext::Value(value)
            },
            SnapshotReply::Error { id, code, message } => {
                if id != self.id {
                    return self.lose(host, mismatch_message(id, self.id));
                }
                self.phase = SnapshotPhase::Finished;
                let mut text = explained("application semantic snapshot failed (", code.as_str());
                text.append("): ");
                text.append(message.as_str());
                SnapshotNext::Failed(text)
            },
        }
    }

    fn note_read(&mut self, host: &mut Host, event: ReadEvent, now: u128) -> (next: SnapshotNext)
        ensures
            (final(host)@, *final(self), next@) == old(self).read(old(host)@, event, now),
    {
        match event {
            ReadEvent::Closed => {
                let message = explained(
                    "application disconnected while answering semantic ",
                    text::decimal(self.id).as_str(),
                );
                self.lose(host, message)
            },
            ReadEvent::Failed(error) => {
                self.break_off(host, "read application semantic response", error.as_str())
            },
            ReadEvent::WouldBlock => {
                if self.phase == SnapshotPhase::LastPoll {
                    self.phase = SnapshotPhase::Finished;
                    SnapshotNext::Failed(
                        "session ended while answering application semantic snapshot".to_owned(),
                    )
                } else {
                    SnapshotNext::PumpSession
                }
            },
            ReadEvent::Bytes(bytes) => self.read_answer(host, bytes.as_slice(), now),
        }
    }

    /// Takes note of what happened during the exchange, and says what to do next.
    pub fn step(&mut self, host: &mut Host, event: SnapshotEvent, now: u128) -> (next: SnapshotNext)
        ensures
            (final(host)@, *final(self), next@) == old(self).stepped(old(host)@, event, now),
    {
        match (self.phase, event) {
            (SnapshotPhase::Ready, SnapshotEvent::Pumped { ended }) => self.ready(host, ended, now),
            (SnapshotPhase::Ready, SnapshotEvent::Rested) => SnapshotNext::Pump,
            (SnapshotPhase::Write, SnapshotEvent::Written) => {
                match host.connection.take() {
                    None => self.disconnected(),
                    Some(mut connection) => {
                        connection.pending_id = Some(self.id);
                        host.connection = Some(connection);
                        self.phase = SnapshotPhase::Poll;
                        self.poll(host, now)
                    },
                }
            },
            (SnapshotPhase::Write, SnapshotEvent::WriteFailed { message, cause }) => {
                match cause {
                    Some(cause) => self.break_off(host, message.as_str(), cause.as_str()),
                    None => self.lose(host, message),
                }
            },
            (SnapshotPhase::Poll, SnapshotEvent::Read(read)) => self.note_read(host, read, now),
            (SnapshotPhase::LastPoll, SnapshotEvent::Read(read)) => self.note_read(host, read, now),
            (SnapshotPhase::Poll, SnapshotEvent::Parsed(reply)) => self.answer(host, reply, now),
            (SnapshotPhase::LastPoll, SnapshotEvent::Parsed(reply)) => {
                self.answer(host, reply, now)
            },
            (SnapshotPhase::Poll, SnapshotEvent::ParseFailed(error)) => {
                self.break_off(host, "parse application semantic response", error.as_str())
            },
            (SnapshotPhase::LastPoll, SnapshotEvent::ParseFailed(error)) => {
                self.break_off(host, "parse application semantic response", error.as_str())
            },
            (SnapshotPhase::Poll, SnapshotEvent::SessionPumped { ended }) => {
                if ended {
                    self.phase = SnapshotPhase::LastPoll;
                    if now >= self.deadline {
                        self.lose(host, timed_out_message(self.id))
                    } else {
                        SnapshotNext::Read
                    }
                } else {
                    SnapshotNext::Rest(rest_up_to(self.deadline, now, REST))
                }
            },
            (SnapshotPhase::Poll, SnapshotEvent::Rested) => self.poll(host, now),
            _ => {
                self.phase = SnapshotPhase::Finished;
                SnapshotNext::Nothing
            },
        }
    }
}

impl HostView {
    /// Whether an application with snapshots is connected and idle.
    pub open spec fn offers_snapshots(self) -> bool {
        match self.connection {
            Some(connection) => holds(connection.capabilities, SNAPSHOT_CAPABILITY@)
                && connection.pending_id is None,
            None => false,
        }
    }
}

/// No snapshot is handed out at or after the deadline.
pub proof fn lemma_late_snapshot_is_refused(
    exchange: Exchange,
    host: HostView,
    event: SnapshotEvent,
    now: u128,
)
    requires
        now >= exchange.deadline,
    ensures
        !(exchange.stepped(host, event, now).2 is Value),
{
}

/// A snapshot that is handed out answers the request of this exchange, and afterwards the
/// application can be asked again.
pub proof fn lemma_snapshot_answers_request(
    exchange: Exchange,
    host: HostView,
    event: SnapshotEvent,
    now: u128,
)
    requires
        exchange.stepped(host, event, now).2 is Value,
    ensures
        event matches SnapshotEvent::Parsed(SnapshotReply::Value { id, value }) && id == exchange.id
            && exchange.stepped(host, event, now).2 == NextView::Value(value),
        exchange.stepped(host, event, now).1.phase == SnapshotPhase::Finished,
        exchange.stepped(host, event, now).0.connection is Some,
        exchange.stepped(host, event, now).0.connection->0.pending_id is None,
        exchange.stepped(host, event, now).0.connection->0.input.len() == 0,
{
}

/// An application that refuses a snapshot in time stays connected and can be asked again, under
/// another number.
pub proof fn lemma_refusal_keeps_application(
    exchange: Exchange,
    host: HostView,
    code: String,
    message: String,
    now: u128,
)
    requires
        exchange.phase == SnapshotPhase::Poll || exchange.phase == SnapshotPhase::LastPoll,
        now < exchange.deadline,
        host.connection is Some,
        holds(host.connection->0.capabilities, SNAPSHOT_CAPABILITY@),
    ensures
        ({
            let event = SnapshotEvent::Parsed(
                SnapshotReply::Error { id: exchange.id, code, message },
            );
            let (after, over, next) = exchange.stepped(host, event, now);
            &&& next is Failed
            &&& after.offers_snapshots()
            &&& after.connection->0.next_id == host.connection->0.next_id
        }),
{
}

/// Two exchanges in a row have different numbers.
pub proof fn lemma_numbers_differ(exchange: Exchange, host: HostView, now: u128)
    requires
        exchange.phase == SnapshotPhase::Ready,
        now < exchange.deadline,
        host.offers_snapshots(),
    ensures
        ({
            let (after, begun, next) = exchange.stepped(
                host,
                SnapshotEvent::Pumped { ended: false },
                now,
            );
            &&& next == NextView::Write(host.connection->0.next_id)
            &&& begun.id == host.connection->0.next_id
            &&& after.connection->0.next_id != begun.id
        }),
{
}

/// An application without the capability has nothing to give, and stays connected.
pub proof fn lemma_capability_is_asked_for(exchange: Exchange, host: HostView, now: u128)
    requires
        exchange.phase == SnapshotPhase::Ready,
        now < exchange.deadline,
        host.connection is Some,
        !holds(host.connection->0.capabilities, SNAPSHOT_CAPABILITY@),
    ensures
        exchange.stepped(host, SnapshotEvent::Pumped { ended: false }, now) == (
            host,
            exchange.over(),
            NextView::Nothing,
        ),
{
}

/// A connection that has not finished its introduction makes way for a newer one.
pub proof fn lemma_newer_connection_replaces_pending(host: HostView, now: u128)
    ensures
        host.pumped(PumpEvent::Accepted, now).0 == (HostView {
            pending: Some(PendingView { input: Seq::empty(), accepted_at: now }),
            ..host
        }),
        host.pumped(PumpEvent::Accepted, now).1 == PumpNext::Accept,
{
}

/// After a clean disconnect the host takes connections again.
pub proof fn lemma_reconnect_after_disconnect(host: HostView, now: u128)
    ensures
        host.pumped(PumpEvent::Peeked(Peek::Closed), now).0.connection is None,
        host.pumped(PumpEvent::Peeked(Peek::Closed), now).0.pending == host.pending,
        host.pumped(PumpEvent::Peeked(Peek::Closed), now).1 == PumpNext::Accept,
{
}

/// A valid introduction, once answered, leaves the application connected with nothing against it.
pub proof fn lemma_valid_introduction_connects(host: HostView, hello: Hello, now: u128)
    requires
        hello.complaint() is None,
    ensures
        ({
            let (accepted, next) = host.pumped(PumpEvent::Parsed(hello), now);
            let (connected, end) = accepted.pumped(PumpEvent::Greeted, now);
            &&& next == PumpNext::Greet
            &&& end == PumpNext::Done
            &&& connected.failure is None
            &&& connected.connection is Some
            &&& connected.connection->0.application == hello.application
            &&& connected.connection->0.capabilities == hello.capabilities@
            &&& connected.connection->0.pending_id is None
        }),
{
}

/// Whom a message goes to.
#[derive(Clone, Copy, Debug, PartialEq, Eq, Structural)]
pub enum Peer {
    Application,
    Session,
}

/// What came of an attempt to write.
#[derive(Debug)]
pub enum WriteEvent {
    Begin,
    Wrote(usize),
    WouldBlock,
    Rested,
    Failed(String),
}

/// What to do next while a message is written or read.
#[derive(Debug)]
pub enum TransferNext {
    /// Go on with the stream.
    Again,
    /// Rest for so many nanoseconds.
    Rest(u128),
    Done,
    Failed(String),
    /// The stream failed: what was going on, and the stream's error.
    Broken { doing: String, error: String },
}

/// Model of [`TransferNext`].
pub enum TransferView {
    Again,
    Rest(u128),
    Done,
    Failed(Seq<char>),
    Broken(Seq<char>, Seq<char>),
}

impl View for TransferNext {
    type V = TransferView;

    open spec fn view(&self) -> TransferView {
        match *self {
            TransferNext::Again => TransferView::Again,
            TransferNext::Rest(duration) => TransferView::Rest(duration),
            TransferNext::Done => TransferView::Done,
            TransferNext::Failed(message) => TransferView::Failed(message@),
            TransferNext::Broken { doing, error } => TransferView::Broken(doing@, error@),
        }
    }
}

/// A message that is written until a deadline.
#[derive(Clone, Copy, Debug, PartialEq, Eq, Structural)]
pub struct Upload {
    pub peer: Peer,
    pub length: usize,
    pub written: usize,
    pub deadline: u128,
}

impl Peer {
    /// Says that writing took too long.
    pub open spec fn late_write(self) -> Seq<char> {
        match self {
            Peer::Application => "timed out writing application semantic request"@,
            Peer::Session => "timed out writing session semantic request"@,
        }
    }

    /// Says that the stream was closed while writing.
    pub open spec fn closed_write(self) -> Seq<char> {
        match self {
            Peer::Application => "application disconnected while writing semantic request"@,
            Peer::Session => "session closed while writing semantic request"@,
        }
    }

    /// Says what was going on when writing failed.
    pub open spec fn failed_write(self) -> Seq<char> {
        match self {
            Peer::Application => "write application semantic request"@,
            Peer::Session => "write session semantic request"@,
        }
    }

    /// How long to rest when the stream is not ready, in nanoseconds.
    pub open spec fn write_rest(self) -> u128 {
        match self {
            Peer::Application => 1_000_000,
            Peer::Session => 5_000_000,
        }
    }
}

/// `interval`, but not past the deadline.
pub open spec fn rest_within(deadline: u128, now: u128, interval: u128) -> u128 {
    if deadline <= now {
        0
    } else if deadline - now < interval {
        (deadline - now) as u128
    } else {
        interval
    }
}

impl Upload {
    /// Whether to go on writing.
    pub open spec fn going_on(self, now: u128) -> TransferView {
        if self.written >= self.length {
            TransferView::Done
        } else if now >= self.deadline {
            TransferView::Failed(self.peer.late_write())
        } else {
            TransferView::Again
        }
    }

    /// The message after `event`, and what to do next.
    pub open spec fn stepped(self, event: WriteEvent, now: u128) -> (Upload, TransferView) {
        match event {
            WriteEvent::Begin | WriteEvent::Rested => (self, self.going_on(now)),
            WriteEvent::Wrote(length) => if length == 0 {
                (self, TransferView::Failed(self.peer.closed_write()))
            } else {
                let upload = Upload {
                    written: if self.length - self.written <= length {
                        self.length
                    } else {
                        (self.written + length) as usize
                    },
                    ..self
                };
                (upload, upload.going_on(now))
            },
            WriteEvent::WouldBlock => (
                self,
                TransferView::Rest(rest_within(self.deadline, now, self.peer.write_rest())),
            ),
            WriteEvent::Failed(error) => (
                self,
                TransferView::Broken(self.peer.failed_write(), error@),
            ),
        }
    }

    fn go_on(&self, now: u128) -> (next: TransferNext)
        ensures
            next@ == self.going_on(now),
    {
        if self.written >= self.length {
            TransferNext::Done
        } else if now >= self.deadline {
            TransferNext::Failed(
                match self.peer {
                    Peer::Application => {
                        "timed out writing application semantic request".to_owned()
                    },
                    Peer::Session => "timed out writing session semantic request".to_owned(),
                },
            )
        } else {
            TransferNext::Again
        }
    }

    /// Takes note of what came of writing from `written` on, and says what to do next.
    pub fn step(&mut self, event: WriteEvent, now: u128) -> (next: TransferNext)
        requires
            old(self).written <= old(self).length,
        ensures
            (*final(self), next@) == old(self).stepped(event, now),
            final(self).written <= final(self).length,
    {
        match event {
            WriteEvent::Begin | WriteEvent::Rested => self.go_on(now),
            WriteEvent::Wrote(length) => {
                if length == 0 {
                    return TransferNext::Failed(
                        match self.peer {
                            Peer::Application => {
                                "application disconnected while writing semantic request".to_owned()
                            },
                            Peer::Session => {
                                "session closed while writing semantic request".to_owned()
                            },
                        },
                    );
                }
                if self.length - self.written <= length {
                    self.written = self.length;
                } else {
                    self.written = self.written + length;
                }
                self.go_on(now)
            },
            WriteEvent::WouldBlock => {
                let interval: u128 = match self.peer {
                    Peer::Application => 1_000_000,
                    Peer::Session => 5_000_000,
                };
                TransferNext::Rest(rest_up_to(self.deadline, now, interval))
            },
            WriteEvent::Failed(error) => {
                let doing = match self.peer {
                    Peer::Application => "write application semantic request".to_owned(),
                    Peer::Session => "write session semantic request".to_owned(),
                };
                TransferNext::Broken { doing, error }
            },
        }
    }
}

/// `interval`, but not past the deadline.
fn rest_up_to(deadline: u128, now: u128, interval: u128) -> (duration: u128)
    ensures
        duration == rest_within(deadline, now, interval),
{
    if deadline <= now {
        0
    } else if deadline - now < interval {
        deadline - now
    } else {
        interval
    }
}

/// A response of a session that is read until it closes the stream or a deadline passes.
#[derive(Debug)]
pub struct Download {
    pub bytes: Vec<u8>,
    pub deadline: u128,
}

/// What a response amounts to after `event`, and what to do next.
pub open spec fn downloaded(bytes: Seq<u8>, deadline: u128, event: Option<ReadEvent>, now: u128) -> (
    Seq<u8>,
    TransferView,
) {
    match event {
        None => (
            bytes,
            if now >= deadline {
                TransferView::Failed("timed out waiting for session semantic response"@)
            } else {
                TransferView::Again
            },
        ),
        Some(event) => match event {
            ReadEvent::Closed => (bytes, TransferView::Done),
            ReadEvent::Bytes(more) => (
                bytes + more@,
                if bytes.len() + more@.len() > MAX_SESSION_RESPONSE_BYTES {
                    TransferView::Failed(
                        "session response exceeds "@ + text::decimal_text(
                            MAX_SESSION_RESPONSE_BYTES as nat,
                        ) + " bytes"@,
                    )
                } else if now >= deadline {
                    TransferView::Failed("timed out waiting for session semantic response"@)
                } else {
                    TransferView::Again
                },
            ),
            ReadEvent::WouldBlock => (
                bytes,
                TransferView::Rest(rest_within(deadline, now, 5_000_000)),
            ),
            ReadEvent::Failed(error) => (
                bytes,
                TransferView::Broken("read session semantic response"@, error@),
            ),
        },
    }
}

impl Download {
    /// Takes note of what the stream brought, or of a rest, and says what to do next.
    pub fn step(&mut self, event: Option<ReadEvent>, now: u128) -> (next: TransferNext)
        ensures
            (final(self).bytes@, next@) == downloaded(
                old(self).bytes@,
                old(self).deadline,
                event,
                now,
            ),
            final(self).deadline == old(self).deadline,
    {
        match event {
            None => {
                if now >= self.deadline {
                    return TransferNext::Failed(
                        "timed out waiting for session semantic response".to_owned(),
                    );
                }
                TransferNext::Again
            },
            Some(ReadEvent::Closed) => TransferNext::Done,
            Some(ReadEvent::Bytes(more)) => {
                text::append_bytes(&mut self.bytes, more.as_slice());
                if self.bytes.len() > MAX_SESSION_RESPONSE_BYTES {
                    let mut message = explained(
                        "session response exceeds ",
                        text::decimal(MAX_SESSION_RESPONSE_BYTES as u64).as_str(),
                    );
                    message.append(" bytes");
                    return TransferNext::Failed(message);
                }
                if now >= self.deadline {
                    return TransferNext::Failed(
                        "timed out waiting for session semantic response".to_owned(),
                    );
                }
                TransferNext::Again
            },
            Some(ReadEvent::WouldBlock) => {
                TransferNext::Rest(rest_up_to(self.deadline, now, 5_000_000))
            },
            Some(ReadEvent::Failed(error)) => {
                TransferNext::Broken { doing: "read session semantic response".to_owned(), error }
            },
        }
    }
}

/// The response of a session, unless it was parsed too late.
pub fn response_in_time<T>(response: T, deadline: u128, now: u128) -> (result: Result<T, String>)
    ensures
        result is Ok <==> now < deadline,
        result matches Ok(kept) ==> kept == response,
        result matches Err(message) ==> message@ == "timed out parsing session semantic response"@,
{
    if now >= deadline {
        Err("timed out parsing session semantic response".to_owned())
    } else {
        Ok(response)
    }
}

/// An introduction is accepted exactly if it says hello in the first version of the protocol, names
/// the application and holds no empty capability.
pub proof fn lemma_introductions_are_checked(hello: Hello)
    ensures
        hello.complaint() is None <==> {
            &&& hello.kind@ == "hello"@
            &&& hello.protocol_version == 1
            &&& hello.application.name@.len() > 0
            &&& forall|i: int|
                0 <= i < hello.capabilities@.len() ==> (#[trigger] hello.capabilities@[i])@.len()
                    > 0
        },
        hello.kind@ != "hello"@ ==> hello.complaint() == Some(HelloError::NotHello),
        hello.kind@ == "hello"@ && hello.protocol_version != 1 ==> hello.complaint() == Some(
            HelloError::Version(hello.protocol_version),
        ),
{
}

/// A line ends at the first line feed.
pub proof fn lemma_line_ends_at_the_first_line_feed(bytes: Seq<u8>, from: int)
    requires
        0 <= from,
    ensures
        match line_end(bytes, from) {
            Some(end) => {
                &&& from <= end < bytes.len()
                &&& bytes[end] == 10
                &&& forall|i: int| from <= i < end ==> (#[trigger] bytes[i]) != 10
            },
            None => forall|i: int| from <= i < bytes.len() ==> (#[trigger] bytes[i]) != 10,
        },
    decreases bytes.len() - from,
{
    if from < bytes.len() && bytes[from] != 10 {
        lemma_line_ends_at_the_first_line_feed(bytes, from + 1);
    }
}

/// Whoever wants to connect does not disturb the application that is connected: only its own
/// disconnection, and an introduction that was answered, change who is connected.
pub proof fn lemma_newcomers_do_not_disturb(host: HostView, event: PumpEvent, now: u128)
    ensures
        ({
            let (after, next) = host.pumped(event, now);
            match event {
                PumpEvent::Peeked(Peek::Closed) | PumpEvent::Peeked(Peek::Failed(_)) => after.connection
                    is None && next is Accept,
                PumpEvent::Greeted => host.greeting matches Some(hello) ==> (after.connection
                    matches Some(connection) && connection.application == hello.application
                    && connection.capabilities == hello.capabilities@ && connection.next_id == 1
                    && connection.pending_id is None && connection.input.len() == 0),
                _ => after.connection == host.connection,
            }
        }),
        event is Greeted && host.greeting is None ==> host.pumped(event, now).0 == host,
{
}

/// An introduction is parsed once its line is complete and nothing follows but white space. A longer
/// one than 8 MiB is refused, and so is anything that follows the line.
pub proof fn lemma_introduction_is_one_line(host: HostView, bytes: Vec<u8>, now: u128)
    requires
        host.pending is Some,
    ensures
        ({
            let input = host.pending->0.input + bytes@;
            let (after, next) = host.pumped(PumpEvent::Read(ReadEvent::Bytes(bytes)), now);
            let lines = exists|i: int| 0 <= i < input.len() && (#[trigger] input[i]) == 10;
            &&& input.len() > 8_388_608 ==> next is Done && after.pending is None && after.failure
                is Some
            &&& input.len() <= 8_388_608 && !lines ==> next is Read && (after.pending matches Some(
                pending,
            ) && pending.input == input && pending.accepted_at == host.pending->0.accepted_at)
            &&& next matches PumpNext::Parse { length } ==> {
                &&& length < input.len() <= 8_388_608
                &&& input[length as int] == 10
                &&& forall|i: int| 0 <= i < length ==> (#[trigger] input[i]) != 10
                &&& forall|i: int| length < i < input.len() ==> ascii_space(#[trigger] input[i])
                &&& after.pending matches Some(pending) && pending.input == input
            }
            &&& !(next is Parse) && lines ==> next is Done && after.pending is None && after.failure
                is Some
        }),
{
    lemma_line_ends_at_the_first_line_feed(host.pending->0.input + bytes@, 0);
}

/// Who has connected has five seconds to introduce itself.
pub proof fn lemma_introduction_is_awaited(host: HostView, now: u128)
    ensures
        ({
            let (after, next) = host.pumped(PumpEvent::NoMore, now);
            &&& host.pending is None ==> next is Done && after == host
            &&& host.pending matches Some(pending) ==> if pending.accepted_at + 5_000_000_000
                <= now {
                next is Done && after.pending is None && after.failure is Some
            } else {
                next is Read && after == host
            }
        }),
{
}

/// White space is a blank, a tab or an end of a line or a page.
pub proof fn lemma_ascii_space(byte: u8)
    ensures
        ascii_space(byte) <==> byte == 32 || byte == 9 || byte == 10 || byte == 12 || byte == 13,
{
}

/// An application that is ready is asked at once, under its next number. One that is not there yet is
/// awaited, 10 ms at a time and never past the deadline.
pub proof fn lemma_ready_application_is_asked(exchange: Exchange, host: HostView, now: u128)
    requires
        exchange.phase == SnapshotPhase::Ready,
    ensures
        ({
            let (after, on, next) = exchange.stepped(
                host,
                SnapshotEvent::Pumped { ended: false },
                now,
            );
            let able = host.connection matches Some(connection) && exists|i: int|
                0 <= i < connection.capabilities.len() && (#[trigger] connection.capabilities[i])@
                    == "semantic.snapshot"@;
            &&& now >= exchange.deadline ==> next is Failed && after.connection is None
            &&& now < exchange.deadline && host.connection is None ==> on == exchange && after
                == host && (next matches NextView::Rest(rest) && 0 < rest <= 10_000_000 && now
                + rest <= exchange.deadline)
            &&& now < exchange.deadline && able && host.connection->0.pending_id is None ==> next
                == NextView::Write(host.connection->0.next_id) && on.id
                == host.connection->0.next_id && on.phase == SnapshotPhase::Write && on.deadline
                == exchange.deadline
            &&& now < exchange.deadline && able && host.connection->0.pending_id is Some ==> next
                is Failed && after == host
            &&& now < exchange.deadline && host.connection is Some && !able ==> next is Nothing
                && after == host
        }),
        ({
            let ended = exchange.stepped(host, SnapshotEvent::Pumped { ended: true }, now);
            ended.2 is Failed && ended.0 == host
        }),
{
}

/// A snapshot that comes in time under the number it was asked for is handed out as it is. One under
/// another number ends the connection.
pub proof fn lemma_answer_in_time_is_handed_out(
    exchange: Exchange,
    host: HostView,
    id: u64,
    value: serde_json::Value,
    now: u128,
)
    requires
        exchange.phase == SnapshotPhase::Poll || exchange.phase == SnapshotPhase::LastPoll,
        host.connection is Some,
        now < exchange.deadline,
    ensures
        ({
            let (after, on, next) = exchange.stepped(
                host,
                SnapshotEvent::Parsed(SnapshotReply::Value { id, value }),
                now,
            );
            &&& on.phase == SnapshotPhase::Finished
            &&& id == exchange.id ==> next == NextView::Value(value) && after.connection is Some
                && after.connection->0.application == host.connection->0.application
            &&& id != exchange.id ==> next is Failed && after.connection is None
        }),
{
}

/// A request that was written is awaited. While there is no answer the session is looked after, and
/// the application is looked at again. Once the session has ended, one last look must bring the
/// answer.
pub proof fn lemma_answer_is_awaited(exchange: Exchange, host: HostView, now: u128)
    requires
        host.connection is Some,
        now < exchange.deadline,
    ensures
        exchange.phase == SnapshotPhase::Write ==> ({
            let (after, on, next) = exchange.stepped(host, SnapshotEvent::Written, now);
            &&& next is Read
            &&& on == (Exchange { phase: SnapshotPhase::Poll, ..exchange })
            &&& after.connection matches Some(connection) && connection.pending_id == Some(
                exchange.id,
            )
        }),
        exchange.phase == SnapshotPhase::Poll ==> ({
            let blocked = exchange.stepped(
                host,
                SnapshotEvent::Read(ReadEvent::WouldBlock),
                now,
            );
            let looked = exchange.stepped(
                host,
                SnapshotEvent::SessionPumped { ended: false },
                now,
            );
            let rested = exchange.stepped(host, SnapshotEvent::Rested, now);
            let ended = exchange.stepped(host, SnapshotEvent::SessionPumped { ended: true }, now);
            &&& blocked == (host, exchange, NextView::PumpSession)
            &&& looked.0 == host && looked.1 == exchange && (looked.2 matches NextView::Rest(rest)
                && 0 < rest <= 10_000_000 && now + rest <= exchange.deadline)
            &&& rested == (host, exchange, NextView::Read)
            &&& ended.2 is Read && ended.1.phase == SnapshotPhase::LastPoll
        }),
        exchange.phase == SnapshotPhase::LastPoll ==> exchange.stepped(
            host,
            SnapshotEvent::Read(ReadEvent::WouldBlock),
            now,
        ).2 is Failed,
{
}

/// An answer is parsed once its line is complete and nothing follows but white space. Until then more
/// of it is read. What is too long, or more than one answer, ends the connection.
pub proof fn lemma_answer_is_one_line(exchange: Exchange, host: HostView, bytes: Vec<u8>, now: u128)
    requires
        exchange.phase == SnapshotPhase::Poll || exchange.phase == SnapshotPhase::LastPoll,
        host.connection is Some,
    ensures
        ({
            let input = host.connection->0.input + bytes@;
            let (after, on, next) = exchange.stepped(
                host,
                SnapshotEvent::Read(ReadEvent::Bytes(bytes)),
                now,
            );
            let lines = exists|i: int| 0 <= i < input.len() && (#[trigger] input[i]) == 10;
            &&& input.len() > 8_388_608 || now >= exchange.deadline ==> next is Failed
                && after.connection is None
            &&& input.len() <= 8_388_608 && now < exchange.deadline && !lines ==> next is Read && on
                == exchange && (after.connection matches Some(connection) && connection.input
                == input)
            &&& next matches NextView::Parse(length) ==> {
                &&& 0 <= length < input.len()
                &&& input[length] == 10
                &&& forall|i: int| 0 <= i < length ==> (#[trigger] input[i]) != 10
                &&& forall|i: int| length < i < input.len() ==> ascii_space(#[trigger] input[i])
                &&& on == exchange
            }
            &&& lines && !(next is Parse) ==> next is Failed && after.connection is None
        }),
{
    lemma_line_ends_at_the_first_line_feed(host.connection->0.input + bytes@, 0);
}

/// Whatever goes wrong with the stream of an application ends the connection and the exchange.
pub proof fn lemma_broken_streams_end_the_exchange(
    exchange: Exchange,
    host: HostView,
    error: String,
    now: u128,
)
    requires
        exchange.phase == SnapshotPhase::Poll || exchange.phase == SnapshotPhase::LastPoll,
    ensures
        ({
            let closed = exchange.stepped(host, SnapshotEvent::Read(ReadEvent::Closed), now);
            let failed = exchange.stepped(host, SnapshotEvent::Read(ReadEvent::Failed(error)), now);
            let garbled = exchange.stepped(host, SnapshotEvent::ParseFailed(error), now);
            &&& closed.2 is Failed && closed.0.connection is None
            &&& failed.2 is Failed && failed.0.connection is None
            &&& garbled.2 is Failed && garbled.0.connection is None
            &&& closed.1.phase == SnapshotPhase::Finished
            &&& failed.1.phase == SnapshotPhase::Finished
            &&& garbled.1.phase == SnapshotPhase::Finished
        }),
{
}

/// A message is written to its end: what was written counts, the rest is written next, and it is done
/// exactly when everything was written. A stream that takes nothing, and a passed deadline, end it.
pub proof fn lemma_messages_are_written_whole(upload: Upload, written: usize, now: u128)
    requires
        upload.written <= upload.length,
        written <= upload.length - upload.written,
    ensures
        ({
            let (after, next) = upload.stepped(WriteEvent::Wrote(written), now);
            &&& after.length == upload.length && after.deadline == upload.deadline
            &&& written == 0 ==> next is Failed && after == upload
            &&& written > 0 ==> after.written == upload.written + written
            &&& written > 0 && after.written == after.length ==> next is Done
            &&& written > 0 && after.written < after.length && now < upload.deadline ==> next
                is Again
            &&& written > 0 && after.written < after.length && now >= upload.deadline ==> next
                is Failed
        }),
        ({
            let (after, next) = upload.stepped(WriteEvent::WouldBlock, now);
            &&& after == upload
            &&& next matches TransferView::Rest(rest) && (now < upload.deadline ==> 0 < rest
                <= 5_000_000 && now + rest <= upload.deadline)
        }),
{
}

/// A response is read until the session closes the stream, and nothing of it is lost. One that is
/// longer than 16 MiB or late is refused.
pub proof fn lemma_responses_are_read_whole(
    bytes: Seq<u8>,
    deadline: u128,
    more: Vec<u8>,
    now: u128,
)
    ensures
        downloaded(bytes, deadline, Some(ReadEvent::Closed), now) == (bytes, TransferView::Done),
        ({
            let (after, next) = downloaded(bytes, deadline, Some(ReadEvent::Bytes(more)), now);
            &&& after == bytes + more@
            &&& next is Again <==> after.len() <= 16_777_216 && now < deadline
            &&& next is Failed <==> after.len() > 16_777_216 || now >= deadline
        }),
        ({
            let (after, next) = downloaded(bytes, deadline, Some(ReadEvent::WouldBlock), now);
            &&& after == bytes
            &&& next matches TransferView::Rest(rest) && (now < deadline ==> 0 < rest <= 5_000_000
                && now + rest <= deadline)
        }),
        ({
            let (after, next) = downloaded(bytes, deadline, None, now);
            &&& after == bytes
            &&& next is Again <==> now < deadline
            &&& next is Failed <==> now >= deadline
        }),
{
}

/// A message that could not be written is told of as what became of the stream, to the application
/// or to the session. A stream that is not ready is tried again after a millisecond, or after five.
pub proof fn lemma_failed_writes_are_told()
    ensures
        Peer::Application.late_write() == "timed out writing application semantic request"@,
        Peer::Session.late_write() == "timed out writing session semantic request"@,
        Peer::Application.closed_write()
            == "application disconnected while writing semantic request"@,
        Peer::Session.closed_write() == "session closed while writing semantic request"@,
        Peer::Application.failed_write() == "write application semantic request"@,
        Peer::Session.failed_write() == "write session semantic request"@,
        Peer::Application.write_rest() == 1_000_000,
        Peer::Session.write_rest() == 5_000_000,
{
}

/// An application is called by its name, and by its version too where it tells one.
pub proof fn lemma_applications_are_called_by_name(application: Application)
    ensures
        application.version is None ==> application.called() == application.name@,
        application.version is Some ==> application.called() == application.name@ + " "@
            + application.version->0@,
{
}

/// A connection that could not be taken is told of with its error, and nothing else changes.
pub proof fn lemma_failed_connections_are_told(host: HostView, error: String, now: u128)
    ensures
        ({
            let (after, next) = host.pumped(PumpEvent::ConfigureFailed(error), now);
            &&& after.failure == Some("configure application semantic connection: "@ + error@)
            &&& after == (HostView { failure: after.failure, ..host })
            &&& next == PumpNext::Done
        }),
        ({
            let (after, next) = host.pumped(PumpEvent::AcceptFailed(error), now);
            &&& after.failure == Some("accept application semantic connection: "@ + error@)
            &&& after == (HostView { failure: after.failure, ..host })
            &&& next == PumpNext::Done
        }),
{
}

} // verus!
