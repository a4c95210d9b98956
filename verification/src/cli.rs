//! What the command line asks for: where a screen is read from, which options go together, and
//! what is printed.
use crate::environment::Variables;
use crate::input::{self, UnsupportedEvent};
use crate::recording::Marker;
use crate::session::daemon;
use crate::session::{
    NamedSessionStatus, PruneKind, SessionLaunch, SessionState, SessionStatus, UnavailableReason,
};
use crate::shot::{ColorMode, Options, Shot};
use crate::text;
use crate::workspace::{ActivityKind, PaneId, PaneStatus, WindowStatus, WorkspaceContext};
use vstd::prelude::*;

verus! {

broadcast use vstd::string::group_string_axioms;

/// Where a screen is read from, as the command line says it. Times are in milliseconds.
#[derive(Debug)]
pub struct SourceArgs {
    pub name: Option<String>,
    pub pane: Option<PaneId>,
    pub window: Option<String>,
    pub cols: Option<u16>,
    pub rows: Option<u16>,
    pub pipe: bool,
    pub input: Option<String>,
    pub recording: Option<String>,
    pub at_marker: Option<String>,
    pub at_ms: Option<u64>,
    pub color: Option<ColorMode>,
    pub settle_ms: Option<u64>,
    pub deadline_ms: Option<u64>,
    pub initial_delay_ms: Option<u64>,
    pub wait_for: Option<String>,
    pub max_bytes: Option<usize>,
    pub cwd: Option<String>,
    /// Whether the application is answered as its framework expects.
    pub opentui_host: bool,
    pub send: Vec<String>,
    pub command: Vec<String>,
}

/// Why a command line is refused.
#[derive(Debug)]
pub enum CliError {
    ZeroTerminal,
    NoRoomForTabs,
    RecordingOptions,
    MomentWithoutRecording,
    InputConflict,
    NameConflict,
    NameOptions,
    InputOptions,
    NoSource,
    PipeOptions,
    Event(UnsupportedEvent),
    ShowPng,
    PacedStdin,
    LongStdin,
    NoInput,
    PaneWithoutWorkspace,
    NotInSession,
    InvalidPane { value: String },
    Grid,
    GridColumns,
    GridRows,
}

impl CliError {
    /// What the error says.
    pub open spec fn says(&self) -> Seq<char> {
        match *self {
            CliError::ZeroTerminal => "terminal dimensions must be greater than zero"@,
            CliError::NoRoomForTabs => "workspace needs at least two rows for content and tabs"@,
            CliError::RecordingOptions => "--recording can only be combined with rendering options, --at-marker, or --at-ms"@,
            CliError::MomentWithoutRecording => "--at-marker and --at-ms require --recording"@,
            CliError::InputConflict => "--input cannot be combined with --pipe, NAME, or a command"@,
            CliError::NameConflict => "NAME cannot be combined with --pipe or a command"@,
            CliError::NameOptions => "named-session reads support rendering, --settle-ms, and --deadline-ms only"@,
            CliError::InputOptions => "--input reads support dimensions, rendering, and --max-bytes only"@,
            CliError::NoSource => "provide NAME, a command after --, or --input FILE"@,
            CliError::PipeOptions => "--pipe reads do not support --send, --host, --initial-delay-ms, or --settle-ms"@,
            CliError::Event(error) => error.says(),
            CliError::ShowPng => "show does not support PNG output; use save --format png --out PATH"@,
            CliError::PacedStdin => "--stdin cannot be combined with --pace-ms"@,
            CliError::LongStdin => "session input exceeds 1 MiB"@,
            CliError::NoInput => "provide INPUT events or --stdin"@,
            CliError::PaneWithoutWorkspace => "--pane requires a workspace name or TERMCTRL_WORKSPACE"@,
            CliError::NotInSession => "not running inside a named Terminal Control session; provide a workspace NAME"@,
            CliError::InvalidPane { value } => "invalid TERMCTRL_PANE_ID "@ + text::quoted_text(
                value@,
            ),
            CliError::Grid => "grid must be 1x1, 2x1, 1x2, or 2x2"@,
            CliError::GridColumns => "grid columns must be 1 or 2"@,
            CliError::GridRows => "grid rows must be 1 or 2"@,
        }
    }

    /// Writes out the error.
    pub fn message(&self) -> (message: String)
        ensures
            message@ == self.says(),
    {
        match self {
            CliError::ZeroTerminal => "terminal dimensions must be greater than zero".to_owned(),
            CliError::NoRoomForTabs => {
                "workspace needs at least two rows for content and tabs".to_owned()
            },
            CliError::RecordingOptions => {
                "--recording can only be combined with rendering options, --at-marker, or --at-ms".to_owned()
            },
            CliError::MomentWithoutRecording => {
                "--at-marker and --at-ms require --recording".to_owned()
            },
            CliError::InputConflict => {
                "--input cannot be combined with --pipe, NAME, or a command".to_owned()
            },
            CliError::NameConflict => "NAME cannot be combined with --pipe or a command".to_owned(),
            CliError::NameOptions => {
                "named-session reads support rendering, --settle-ms, and --deadline-ms only".to_owned()
            },
            CliError::InputOptions => {
                "--input reads support dimensions, rendering, and --max-bytes only".to_owned()
            },
            CliError::NoSource => "provide NAME, a command after --, or --input FILE".to_owned(),
            CliError::PipeOptions => {
                "--pipe reads do not support --send, --host, --initial-delay-ms, or --settle-ms".to_owned()
            },
            CliError::Event(error) => error.message(),
            CliError::ShowPng => {
                "show does not support PNG output; use save --format png --out PATH".to_owned()
            },
            CliError::PacedStdin => "--stdin cannot be combined with --pace-ms".to_owned(),
            CliError::LongStdin => "session input exceeds 1 MiB".to_owned(),
            CliError::NoInput => "provide INPUT events or --stdin".to_owned(),
            CliError::PaneWithoutWorkspace => {
                "--pane requires a workspace name or TERMCTRL_WORKSPACE".to_owned()
            },
            CliError::NotInSession => {
                "not running inside a named Terminal Control session; provide a workspace NAME".to_owned()
            },
            CliError::InvalidPane { value } => {
                let mut message = "invalid TERMCTRL_PANE_ID ".to_owned();
                message.append(text::quoted(value.as_str()).as_str());
                message
            },
            CliError::Grid => "grid must be 1x1, 2x1, 1x2, or 2x2".to_owned(),
            CliError::GridColumns => "grid columns must be 1 or 2".to_owned(),
            CliError::GridRows => "grid rows must be 1 or 2".to_owned(),
        }
    }
}

/// Refuses a terminal without cells.
pub fn validate_terminal_size(cols: u16, rows: u16) -> (result: Result<(), CliError>)
    ensures
        result == if cols == 0 || rows == 0 {
            Err::<(), CliError>(CliError::ZeroTerminal)
        } else {
            Ok(())
        },
{
    if cols == 0 || rows == 0 {
        return Err(CliError::ZeroTerminal);
    }
    Ok(())
}

/// Refuses a terminal that has no room for a workspace.
pub fn validate_workspace_size(cols: u16, rows: u16) -> (result: Result<(), CliError>)
    ensures
        result == if cols == 0 || rows == 0 {
            Err::<(), CliError>(CliError::ZeroTerminal)
        } else if rows < 2 {
            Err(CliError::NoRoomForTabs)
        } else {
            Ok(())
        },
{
    match validate_terminal_size(cols, rows) {
        Ok(()) => {},
        Err(error) => {
            return Err(error);
        },
    }
    if rows < 2 {
        return Err(CliError::NoRoomForTabs);
    }
    Ok(())
}

/// A terminal that a workspace is run in is one that can attach to it.
pub proof fn lemma_workspace_size_is_attachable(cols: u16, rows: u16)
    ensures
        daemon::attachable_size(cols, rows) <==> cols != 0 && rows != 0 && rows >= 2,
{
}

/// Quiet period and deadline of a capture.
#[derive(Clone, Copy, Debug, PartialEq, Eq, Structural)]
pub struct CaptureTiming {
    pub settle_ms: u64,
    pub deadline_ms: u64,
}

impl SourceArgs {
    /// Quiet period and deadline. A named session is read at once unless something else is said; a
    /// command gets a moment to settle.
    pub open spec fn timing(&self) -> CaptureTiming {
        CaptureTiming {
            settle_ms: match self.settle_ms {
                Some(settle_ms) => settle_ms,
                None => if self.name is Some {
                    0
                } else {
                    250
                },
            },
            deadline_ms: match self.deadline_ms {
                Some(deadline_ms) => deadline_ms,
                None => if self.name is Some {
                    0
                } else {
                    5000
                },
            },
        }
    }

    /// Whether something is said that only a command source can use, besides its size.
    pub open spec fn shapes_command(&self) -> bool {
        ||| self.color is Some
        ||| self.initial_delay_ms is Some
        ||| self.wait_for is Some
        ||| self.cwd is Some
        ||| self.opentui_host
        ||| self.send@.len() > 0
    }

    /// Whether a quiet period or a deadline is said.
    pub open spec fn says_timing(&self) -> bool {
        self.settle_ms is Some || self.deadline_ms is Some
    }

    /// Whether a size of the terminal is said.
    pub open spec fn says_size(&self) -> bool {
        self.cols is Some || self.rows is Some
    }

    /// The width of the terminal.
    pub open spec fn width(&self) -> u16 {
        match self.cols {
            Some(cols) => cols,
            None => 80,
        }
    }

    /// The height of the terminal.
    pub open spec fn height(&self) -> u16 {
        match self.rows {
            Some(rows) => rows,
            None => 24,
        }
    }

    /// How many bytes may be read.
    pub open spec fn byte_limit(&self) -> usize {
        match self.max_bytes {
            Some(max_bytes) => max_bytes,
            None => 16777216,
        }
    }

    /// What is wrong with the source, if anything is. The first complaint is told. What the
    /// events say is looked at last.
    pub open spec fn complaint(&self) -> Option<CliError> {
        if self.recording is Some {
            if self.name is Some || self.pipe || self.input is Some || self.command@.len() > 0
                || self.says_size() || self.says_timing() || self.shapes_command()
                || self.max_bytes is Some {
                Some(CliError::RecordingOptions)
            } else {
                None
            }
        } else if self.at_marker is Some || self.at_ms is Some {
            Some(CliError::MomentWithoutRecording)
        } else if self.input is Some && (self.pipe || self.name is Some || self.command@.len() > 0) {
            Some(CliError::InputConflict)
        } else if self.name is Some && (self.pipe || self.command@.len() > 0) {
            Some(CliError::NameConflict)
        } else if self.name is Some {
            if self.says_size() || self.shapes_command() || self.max_bytes is Some {
                Some(CliError::NameOptions)
            } else {
                None
            }
        } else if self.width() == 0 || self.height() == 0 {
            Some(CliError::ZeroTerminal)
        } else if self.input is Some {
            if self.says_timing() || self.shapes_command() {
                Some(CliError::InputOptions)
            } else {
                None
            }
        } else if self.command@.len() == 0 {
            Some(CliError::NoSource)
        } else if self.pipe && (self.send@.len() > 0 || self.opentui_host
            || self.initial_delay_ms is Some || self.settle_ms is Some) {
            Some(CliError::PipeOptions)
        } else {
            None
        }
    }

    /// Whether a command is the source.
    pub open spec fn runs_command(&self) -> bool {
        self.recording is None && self.name is None && self.input is None
    }

    /// Whether `options` are those that the command is run with.
    pub open spec fn asks_for(&self, options: Options, cell_width: u16, cell_height: u16) -> bool {
        &&& options.cols == self.width()
        &&& options.rows == self.height()
        &&& options.cell_width == cell_width
        &&& options.cell_height == cell_height
        &&& options.settle == self.timing().settle_ms * 1_000_000
        &&& options.deadline == self.timing().deadline_ms * 1_000_000
        &&& options.input@ == input::joined_bytes(text::views(self.send@))
        &&& options.initial_delay == match self.initial_delay_ms {
            Some(initial_delay_ms) => initial_delay_ms * 1_000_000,
            None => 0,
        }
        &&& daemon::optional_view(options.wait_for) == daemon::optional_view(self.wait_for)
        &&& options.max_bytes == self.byte_limit()
        &&& options.opentui_host == self.opentui_host
        &&& options.color == match self.color {
            Some(color) => color,
            None => if self.pipe {
                ColorMode::Always
            } else {
                ColorMode::Auto
            },
        }
        &&& options.env.wf()
        &&& options.env@.len() == 0
        &&& options.inherit_env
    }
}

/// Where a screen is read from.
#[derive(Debug)]
pub enum Source {
    /// A recording, at its end or at a moment.
    Recording { at_ms: Option<u64>, at_marker: Option<String> },
    /// A named session, or one pane or window of it.
    Session { timing: CaptureTiming, window: Option<String>, pane: Option<PaneId> },
    /// A file of terminal output. At most one byte more than allowed is read of it.
    Input { cols: u16, rows: u16, max_bytes: usize, read_limit: u64 },
    /// A command whose output is piped.
    Pipe(Options),
    /// A command in a terminal.
    Command(Options),
}

/// Quiet period and deadline of a capture.
pub fn capture_timing(args: &SourceArgs) -> (timing: CaptureTiming)
    ensures
        timing == args.timing(),
{
    let named = args.name.is_some();
    CaptureTiming {
        settle_ms: match args.settle_ms {
            Some(settle_ms) => settle_ms,
            None => if named {
                0
            } else {
                250
            },
        },
        deadline_ms: match args.deadline_ms {
            Some(deadline_ms) => deadline_ms,
            None => if named {
                0
            } else {
                5000
            },
        },
    }
}

fn shapes_command(args: &SourceArgs) -> (shapes: bool)
    ensures
        shapes == args.shapes_command(),
{
    args.color.is_some() || args.initial_delay_ms.is_some() || args.wait_for.is_some()
        || args.cwd.is_some() || args.opentui_host || args.send.len() > 0
}

fn copied(text: &Option<String>) -> (copy: Option<String>)
    ensures
        daemon::optional_view(copy) == daemon::optional_view(*text),
{
    match text {
        Some(text) => Some(text.clone()),
        None => None,
    }
}

/// Says where a screen is read from, or what is wrong with the command line.
pub fn read_source(args: &SourceArgs, cell_width: u16, cell_height: u16) -> (result: Result<
    Source,
    CliError,
>)
    ensures
        args.complaint() matches Some(complaint) ==> result == Err::<Source, CliError>(complaint),
        args.complaint() is None && args.runs_command() && input::first_unsupported(
            text::views(args.send@),
        ) is Some ==> result is Err && result->Err_0 is Event && Some(
            result->Err_0->Event_0.event@,
        ) == input::first_unsupported(text::views(args.send@)),
        result is Ok <==> args.complaint() is None && (args.runs_command()
            ==> input::first_unsupported(text::views(args.send@)) is None),
        result matches Ok(source) ==> match source {
            Source::Recording { at_ms, at_marker } => args.recording is Some && at_ms == args.at_ms
                && daemon::optional_view(at_marker) == daemon::optional_view(args.at_marker),
            Source::Session { timing, window, pane } => args.recording is None && args.name is Some
                && timing == args.timing() && pane == args.pane && daemon::optional_view(window)
                == daemon::optional_view(args.window),
            Source::Input { cols, rows, max_bytes, read_limit } => args.recording is None
                && args.name is None && args.input is Some && cols == args.width() && rows
                == args.height() && max_bytes == args.byte_limit() && read_limit == if max_bytes
                == usize::MAX {
                usize::MAX as int
            } else {
                max_bytes + 1
            },
            Source::Pipe(options) => args.runs_command() && args.pipe && args.asks_for(
                options,
                cell_width,
                cell_height,
            ),
            Source::Command(options) => args.runs_command() && !args.pipe && args.asks_for(
                options,
                cell_width,
                cell_height,
            ),
        },
{
    let timing = capture_timing(args);
    let says_timing = args.settle_ms.is_some() || args.deadline_ms.is_some();
    let says_size = args.cols.is_some() || args.rows.is_some();
    let has_command = args.command.len() > 0;
    if args.recording.is_some() {
        if args.name.is_some() || args.pipe || args.input.is_some() || has_command || says_size
            || says_timing || shapes_command(args) || args.max_bytes.is_some() {
            return Err(CliError::RecordingOptions);
        }
        return Ok(Source::Recording { at_ms: args.at_ms, at_marker: copied(&args.at_marker) });
    }
    if args.at_marker.is_some() || args.at_ms.is_some() {
        return Err(CliError::MomentWithoutRecording);
    }
    if args.input.is_some() && (args.pipe || args.name.is_some() || has_command) {
        return Err(CliError::InputConflict);
    }
    if args.name.is_some() && (args.pipe || has_command) {
        return Err(CliError::NameConflict);
    }
    if args.name.is_some() {
        if says_size || shapes_command(args) || args.max_bytes.is_some() {
            return Err(CliError::NameOptions);
        }
        return Ok(Source::Session { timing, window: copied(&args.window), pane: args.pane });
    }
    let cols: u16 = match args.cols {
        Some(cols) => cols,
        None => 80,
    };
    let rows: u16 = match args.rows {
        Some(rows) => rows,
        None => 24,
    };
    match validate_terminal_size(cols, rows) {
        Ok(()) => {},
        Err(error) => {
            return Err(error);
        },
    }
    let max_bytes: usize = match args.max_bytes {
        Some(max_bytes) => max_bytes,
        None => 16777216,
    };
    if args.input.is_some() {
        if says_timing || shapes_command(args) {
            return Err(CliError::InputOptions);
        }
        let read_limit: u64 = max_bytes.saturating_add(1) as u64;
        return Ok(Source::Input { cols, rows, max_bytes, read_limit });
    }
    if !has_command {
        return Err(CliError::NoSource);
    }
    if args.pipe && (args.send.len() > 0 || args.opentui_host || args.initial_delay_ms.is_some()
        || args.settle_ms.is_some()) {
        return Err(CliError::PipeOptions);
    }
    let input = match input::input_bytes(args.send.as_slice()) {
        Ok(input) => input,
        Err(error) => {
            return Err(CliError::Event(error));
        },
    };
    let color = match args.color {
        Some(color) => color,
        None => if args.pipe {
            ColorMode::Always
        } else {
            ColorMode::Auto
        },
    };
    let wait_for = copied(&args.wait_for);
    let initial_delay_ms: u64 = match args.initial_delay_ms {
        Some(initial_delay_ms) => initial_delay_ms,
        None => 0,
    };
    let options = Options {
        cols,
        rows,
        cell_width,
        cell_height,
        settle: timing.settle_ms as u128 * 1_000_000,
        deadline: timing.deadline_ms as u128 * 1_000_000,
        input,
        initial_delay: initial_delay_ms as u128 * 1_000_000,
        wait_for,
        max_bytes,
        opentui_host: args.opentui_host,
        color,
        env: Variables::new(),
        inherit_env: true,
    };
    if args.pipe {
        Ok(Source::Pipe(options))
    } else {
        Ok(Source::Command(options))
    }
}

/// A named session is read at once when nothing is said of timing.
pub proof fn lemma_named_reads_are_immediate(args: SourceArgs)
    requires
        args.name is Some,
        args.settle_ms is None,
        args.deadline_ms is None,
    ensures
        args.timing() == (CaptureTiming { settle_ms: 0, deadline_ms: 0 }),
{
}

/// How a screen is put down.
#[derive(Clone, Copy, Debug, PartialEq, Eq, Structural)]
pub enum ShotFormat {
    Png,
    Svg,
    Txt,
    Json,
    Ansi,
}

impl ShotFormat {
    /// The extension of a file in this format.
    pub open spec fn word(self) -> Seq<char> {
        match self {
            ShotFormat::Png => "png"@,
            ShotFormat::Svg => "svg"@,
            ShotFormat::Txt => "txt"@,
            ShotFormat::Json => "json"@,
            ShotFormat::Ansi => "ansi"@,
        }
    }

    /// The extension of a file in this format.
    pub fn extension(self) -> (word: &'static str)
        ensures
            word@ == self.word(),
    {
        match self {
            ShotFormat::Png => "png",
            ShotFormat::Svg => "svg",
            ShotFormat::Txt => "txt",
            ShotFormat::Json => "json",
            ShotFormat::Ansi => "ansi",
        }
    }
}

/// Refuses to print an image, before anything is read.
pub fn check_show(format: ShotFormat) -> (result: Result<(), CliError>)
    ensures
        result == if format == ShotFormat::Png {
            Err::<(), CliError>(CliError::ShowPng)
        } else {
            Ok(())
        },
{
    if format == ShotFormat::Png {
        return Err(CliError::ShowPng);
    }
    Ok(())
}

/// Whether a newline is printed after a screen: text that does not end in one gets one, and the
/// exact stream is left as it is.
pub fn needs_newline(exact: bool, bytes: &[u8]) -> (needed: bool)
    ensures
        needed == (!exact && !(bytes@.len() > 0 && bytes@.last() == 10)),
{
    if exact {
        return false;
    }
    let length: usize = bytes.len();
    !(length > 0 && bytes[length - 1] == 10)
}

/// The order in which files are written.
pub open spec fn writing_order() -> Seq<ShotFormat> {
    seq![ShotFormat::Svg, ShotFormat::Png, ShotFormat::Json, ShotFormat::Txt, ShotFormat::Ansi]
}

/// The formats among the first `count` of the writing order that are asked for.
pub open spec fn ordered(formats: Seq<ShotFormat>, count: nat) -> Seq<ShotFormat>
    recommends
        count <= 5,
    decreases count,
{
    if count == 0 {
        Seq::empty()
    } else {
        let before = ordered(formats, (count - 1) as nat);
        if formats.contains(writing_order()[count - 1]) {
            before.push(writing_order()[count - 1])
        } else {
            before
        }
    }
}

fn asks_for_format(formats: &[ShotFormat], format: ShotFormat) -> (asked: bool)
    ensures
        asked == formats@.contains(format),
{
    let mut index: usize = 0;
    while index < formats.len()
        invariant
            index <= formats@.len(),
            forall|i: int| 0 <= i < index ==> formats@[i] != format,
        decreases formats@.len() - index,
    {
        if formats[index] == format {
            assert(formats@[index as int] == format);
            return true;
        }
        index += 1;
    }
    false
}

/// Where `byte` stands for the last time, or one before the start.
pub open spec fn last_at(bytes: Seq<u8>, byte: u8) -> int
    decreases bytes.len(),
{
    if bytes.len() == 0 {
        -1
    } else if bytes.last() == byte {
        bytes.len() - 1
    } else {
        last_at(bytes.drop_last(), byte)
    }
}

/// A path up to the end of its last component that names something. Slashes at the end and
/// single dots name nothing.
pub open spec fn named_part(path: Seq<u8>) -> Seq<u8>
    decreases path.len(),
{
    let length = path.len();
    if length == 0 {
        path
    } else if path.last() == 0x2f || (path.last() == 0x2e && (length == 1 || path[length - 2]
        == 0x2f)) {
        named_part(path.drop_last())
    } else {
        path
    }
}

/// A path whose last component has this extension, in place of its own if it has one. A dot at
/// the start of the component begins no extension. A path that ends in no name stays as it is.
pub open spec fn with_extension(path: Seq<u8>, extension: Seq<char>) -> Seq<u8> {
    let named = named_part(path);
    let start = last_at(named, 0x2f) + 1;
    let dot = last_at(named, 0x2e);
    if named.len() == 0 || named.skip(start) == seq![0x2eu8, 0x2eu8] {
        path
    } else {
        (if dot > start {
            named.take(dot)
        } else {
            named
        }).push(0x2e) + vstd::utf8::encode_utf8(extension)
    }
}

proof fn lemma_last_at(bytes: Seq<u8>, byte: u8)
    ensures
        -1 <= last_at(bytes, byte) < bytes.len(),
        last_at(bytes, byte) >= 0 ==> bytes[last_at(bytes, byte)] == byte,
    decreases bytes.len(),
{
    if bytes.len() > 0 && bytes.last() != byte {
        lemma_last_at(bytes.drop_last(), byte);
    }
}

/// How many of the first `end` bytes there are up to and including the last `byte`.
fn count_to_last(bytes: &[u8], end: usize, byte: u8) -> (count: usize)
    requires
        end <= bytes@.len(),
    ensures
        count == last_at(bytes@.take(end as int), byte) + 1,
        count <= end,
{
    let mut count: usize = end;
    while count > 0 && bytes[count - 1] != byte
        invariant
            count <= end <= bytes@.len(),
            last_at(bytes@.take(end as int), byte) == last_at(bytes@.take(count as int), byte),
        decreases count,
    {
        assert(bytes@.take(count as int).drop_last() =~= bytes@.take(count - 1));
        count -= 1;
    }
    count
}

/// The path of a file with this extension.
pub fn extended_path(path: &[u8], extension: &str) -> (extended: Vec<u8>)
    ensures
        extended@ == with_extension(path@, extension@),
{
    let mut end: usize = path.len();
    assert(path@.take(end as int) =~= path@);
    while end > 0 && (path[end - 1] == 0x2f || (path[end - 1] == 0x2e && (end == 1 || path[end - 2]
        == 0x2f)))
        invariant
            end <= path@.len(),
            named_part(path@) == named_part(path@.take(end as int)),
        decreases end,
    {
        assert(path@.take(end as int).drop_last() =~= path@.take(end - 1));
        end -= 1;
    }
    let ghost named = path@.take(end as int);
    assert(named_part(path@) == named);
    let start = count_to_last(path, end, 0x2f);
    let dots = count_to_last(path, end, 0x2e);
    let parent = end - start == 2 && path[start] == 0x2e && path[start + 1] == 0x2e;
    proof {
        lemma_last_at(named, 0x2f);
        if parent {
            assert(named.skip(start as int) =~= seq![0x2eu8, 0x2eu8]);
        } else if named.skip(start as int) == seq![0x2eu8, 0x2eu8] {
            assert(named.skip(start as int).len() == 2);
            assert(named[start as int] == named.skip(start as int)[0]);
            assert(named[start + 1] == named.skip(start as int)[1]);
        }
    }
    if end == 0 || parent {
        return vstd::slice::slice_to_vec(path);
    }
    let stem: usize = if dots > start + 1 {
        dots - 1
    } else {
        end
    };
    let mut extended = vstd::slice::slice_to_vec(vstd::slice::slice_subrange(path, 0, stem));
    assert(extended@ =~= if dots > start + 1 {
        named.take(dots - 1)
    } else {
        named
    });
    extended.push(0x2e);
    text::append_bytes(&mut extended, extension.as_bytes());
    extended
}

/// What a screen is written as where that takes no picture and no structure: its text, or the
/// stream that led to it.
pub open spec fn plain_bytes(captured: Shot, format: ShotFormat) -> Option<Seq<u8>> {
    match format {
        ShotFormat::Txt => Some(vstd::utf8::encode_utf8(captured.frame@.text())),
        ShotFormat::Ansi => Some(captured.ansi@),
        _ => None,
    }
}

/// What a screen is written as, where that takes no picture and no structure.
pub fn plain_content(captured: &Shot, format: ShotFormat) -> (bytes: Option<Vec<u8>>)
    ensures
        (match bytes {
            Some(bytes) => Some(bytes@),
            None => None,
        }) == plain_bytes(*captured, format),
{
    match format {
        ShotFormat::Txt => Some(vstd::slice::slice_to_vec(captured.frame.text().as_str().as_bytes())),
        ShotFormat::Ansi => Some(vstd::slice::slice_to_vec(captured.ansi.as_slice())),
        _ => None,
    }
}

/// A file that a screen is written to.
#[derive(Debug, PartialEq, Eq)]
pub struct OutputFile {
    pub format: ShotFormat,
    pub path: Vec<u8>,
    /// What is written, where that takes no picture and no structure.
    pub content: Option<Vec<u8>>,
}

impl OutputFile {
    /// Whether this is the file for a screen in a format.
    pub open spec fn holds(&self, captured: Shot, out: Seq<u8>, format: ShotFormat) -> bool {
        &&& self.format == format
        &&& self.path@ == with_extension(out, format.word())
        &&& (match self.content {
            Some(bytes) => Some(bytes@),
            None => None,
        }) == plain_bytes(captured, format)
    }
}

fn output_file(captured: &Shot, out: &[u8], format: ShotFormat) -> (file: OutputFile)
    ensures
        file.holds(*captured, out@, format),
{
    OutputFile {
        format,
        path: extended_path(out, format.extension()),
        content: plain_content(captured, format),
    }
}

/// The files that a screen is written to: each format once, in a fixed order, next to `out`.
pub fn write_outputs(captured: &Shot, out: &[u8], formats: &[ShotFormat]) -> (files: Vec<OutputFile>)
    ensures
        files@.len() == ordered(formats@, 5).len(),
        forall|i: int|
            0 <= i < files@.len() ==> (#[trigger] files@[i]).holds(
                *captured,
                out@,
                ordered(formats@, 5)[i],
            ),
{
    let outputs = output_formats(formats);
    let mut files: Vec<OutputFile> = Vec::new();
    let mut index: usize = 0;
    while index < outputs.len()
        invariant
            index <= outputs@.len(),
            files@.len() == index,
            forall|i: int|
                0 <= i < index ==> (#[trigger] files@[i]).holds(*captured, out@, outputs@[i]),
        decreases outputs@.len() - index,
    {
        files.push(output_file(captured, out, outputs[index]));
        index += 1;
    }
    files
}

/// The formats that are written: each once, in a fixed order.
fn output_formats(formats: &[ShotFormat]) -> (outputs: Vec<ShotFormat>)
    ensures
        outputs@ == ordered(formats@, 5),
{
    let mut outputs: Vec<ShotFormat> = Vec::new();
    proof {
        reveal_with_fuel(ordered, 6);
    }
    if asks_for_format(formats, ShotFormat::Svg) {
        outputs.push(ShotFormat::Svg);
    }
    assert(outputs@ =~= ordered(formats@, 1));
    if asks_for_format(formats, ShotFormat::Png) {
        outputs.push(ShotFormat::Png);
    }
    assert(outputs@ =~= ordered(formats@, 2));
    if asks_for_format(formats, ShotFormat::Json) {
        outputs.push(ShotFormat::Json);
    }
    assert(outputs@ =~= ordered(formats@, 3));
    if asks_for_format(formats, ShotFormat::Txt) {
        outputs.push(ShotFormat::Txt);
    }
    assert(outputs@ =~= ordered(formats@, 4));
    if asks_for_format(formats, ShotFormat::Ansi) {
        outputs.push(ShotFormat::Ansi);
    }
    assert(outputs@ =~= ordered(formats@, 5));
    outputs
}

/// Every format that is asked for is written, and no other.
pub proof fn lemma_outputs_are_what_is_asked(formats: Seq<ShotFormat>, format: ShotFormat)
    ensures
        ordered(formats, 5).contains(format) <==> formats.contains(format),
{
    reveal_with_fuel(ordered, 6);
    let order = writing_order();
    assert(exists|i: int| 0 <= i < 5 && order[i] == format) by {
        match format {
            ShotFormat::Svg => assert(order[0] == format),
            ShotFormat::Png => assert(order[1] == format),
            ShotFormat::Json => assert(order[2] == format),
            ShotFormat::Txt => assert(order[3] == format),
            ShotFormat::Ansi => assert(order[4] == format),
        }
    }
    lemma_ordered(formats, format, 5);
}

proof fn lemma_ordered(formats: Seq<ShotFormat>, format: ShotFormat, count: nat)
    requires
        count <= 5,
    ensures
        ordered(formats, count).contains(format) <==> formats.contains(format) && exists|i: int|
            0 <= i < count && #[trigger] writing_order()[i] == format,
    decreases count,
{
    if count > 0 {
        lemma_ordered(formats, format, (count - 1) as nat);
        let before = ordered(formats, (count - 1) as nat);
        let last = writing_order()[count - 1];
        if formats.contains(last) {
            assert(before.push(last).last() == last);
            assert forall|i: int| 0 <= i < before.len() implies before.push(last)[i] == before[i] by {}
            if before.contains(format) {
                let i = choose|i: int| 0 <= i < before.len() && before[i] == format;
                assert(before.push(last)[i] == format);
            }
        }
    }
}

/// The input that is sent to a session.
#[derive(Debug)]
pub enum SendSource {
    /// Read standard input, at most so many bytes.
    Stdin { read_limit: u64 },
    Bursts(Vec<Vec<u8>>),
}

/// What is sent to a session, or what is wrong with the command line.
pub fn send(stdin: bool, pace_ms: u64, events: &[String]) -> (result: Result<SendSource, CliError>)
    ensures
        stdin && pace_ms > 0 ==> result == Err::<SendSource, CliError>(CliError::PacedStdin),
        stdin && pace_ms == 0 ==> result == Ok::<SendSource, CliError>(
            SendSource::Stdin { read_limit: 1048577 },
        ),
        !stdin && events@.len() == 0 ==> result == Err::<SendSource, CliError>(CliError::NoInput),
        !stdin && events@.len() > 0 ==> match result {
            Ok(SendSource::Bursts(bursts)) => {
                &&& input::first_unsupported(text::views(events@)) is None
                &&& input::burst_views(bursts@) == if pace_ms > 0 {
                    input::all_paced_bursts(text::views(events@))
                } else {
                    seq![input::joined_bytes(text::views(events@))]
                }
            },
            Err(CliError::Event(error)) => Some(error.event@) == input::first_unsupported(
                text::views(events@),
            ),
            _ => false,
        },
{
    if stdin && pace_ms > 0 {
        return Err(CliError::PacedStdin);
    }
    if stdin {
        return Ok(SendSource::Stdin { read_limit: 1048577 });
    }
    if events.len() == 0 {
        return Err(CliError::NoInput);
    }
    match input::session_input(events, pace_ms > 0) {
        Ok(bursts) => Ok(SendSource::Bursts(bursts)),
        Err(error) => Err(CliError::Event(error)),
    }
}

/// Standard input as one burst, unless it is too long.
pub fn stdin_burst(bytes: Vec<u8>) -> (result: Result<Vec<Vec<u8>>, CliError>)
    ensures
        bytes@.len() > 1048576 ==> result == Err::<Vec<Vec<u8>>, CliError>(CliError::LongStdin),
        bytes@.len() <= 1048576 ==> result is Ok && result->Ok_0@ == seq![bytes],
{
    if bytes.len() > 1048576 {
        return Err(CliError::LongStdin);
    }
    let mut bursts: Vec<Vec<u8>> = Vec::new();
    bursts.push(bytes);
    assert(bursts@ =~= seq![bytes]);
    Ok(bursts)
}

/// What is told about the place where the command runs.
#[derive(Debug)]
pub enum Current {
    /// The session with this name.
    Session(String),
    /// The pane, or the selected pane, of the workspace with this name.
    Workspace { name: String, pane: Option<u32> },
}

/// The pane that is meant: the one that is said, or, where the command runs in that workspace,
/// the one it runs in.
pub open spec fn current_pane(
    explicit: Option<u32>,
    workspace: Seq<char>,
    inherited_workspace: Option<Seq<char>>,
    inherited_pane: Option<Seq<char>>,
) -> Result<Option<u32>, Seq<char>> {
    if explicit is Some || inherited_workspace != Some(workspace) {
        Ok(explicit)
    } else {
        match inherited_pane {
            None => Ok(None),
            Some(value) => match text::unsigned_value(value) {
                Some(pane) => if pane <= u32::MAX {
                    Ok(Some(pane as u32))
                } else {
                    Err(value)
                },
                None => Err(value),
            },
        }
    }
}

/// The pane that is meant.
pub fn resolve_current_pane(
    explicit: Option<u32>,
    workspace: &str,
    inherited_workspace: Option<&str>,
    inherited_pane: Option<&str>,
) -> (result: Result<Option<u32>, CliError>)
    ensures
        match (
            result,
            current_pane(
                explicit,
                workspace@,
                match inherited_workspace {
                    Some(name) => Some(name@),
                    None => None,
                },
                match inherited_pane {
                    Some(value) => Some(value@),
                    None => None,
                },
            ),
        ) {
            (Ok(pane), Ok(expected)) => pane == expected,
            (Err(error), Err(value)) => error is InvalidPane && error->value@ == value,
            _ => false,
        },
{
    let inside = match inherited_workspace {
        Some(name) => text::same_text(name, workspace),
        None => false,
    };
    if explicit.is_some() || !inside {
        return Ok(explicit);
    }
    match inherited_pane {
        None => Ok(None),
        Some(value) => {
            let chars = text::chars_of(value);
            match text::parse_unsigned(chars.as_slice(), 4294967295) {
                Some(pane) => Ok(Some(pane as u32)),
                None => Err(CliError::InvalidPane { value: value.to_owned() }),
            }
        },
    }
}

/// What is told about the place where the command runs, or why nothing can be told. `workspace`,
/// `session` and `inherited_pane` are what the environment says.
pub fn current(
    name: Option<String>,
    pane: Option<u32>,
    workspace: Option<String>,
    session: Option<String>,
    inherited_pane: Option<String>,
) -> (result: Result<Current, CliError>)
    ensures
        name is None && workspace is None ==> result == if pane is Some {
            Err::<Current, CliError>(CliError::PaneWithoutWorkspace)
        } else {
            match session {
                Some(session) => Ok(Current::Session(session)),
                None => Err(CliError::NotInSession),
            }
        },
        name is Some || workspace is Some ==> {
            let target = match name {
                Some(name) => name@,
                None => workspace->0@,
            };
            match (
                result,
                current_pane(
                    pane,
                    target,
                    daemon::optional_view(workspace),
                    daemon::optional_view(inherited_pane),
                ),
            ) {
                (Ok(Current::Workspace { name: told, pane: shown }), Ok(expected)) => told@ == target
                    && shown == expected,
                (Err(error), Err(value)) => error is InvalidPane && error->value@ == value,
                _ => false,
            }
        },
{
    if name.is_none() && workspace.is_none() {
        if pane.is_some() {
            return Err(CliError::PaneWithoutWorkspace);
        }
        return match session {
            Some(session) => Ok(Current::Session(session)),
            None => Err(CliError::NotInSession),
        };
    }
    let inherited_workspace = match &workspace {
        Some(workspace) => Some(workspace.as_str()),
        None => None,
    };
    let inherited = match &inherited_pane {
        Some(value) => Some(value.as_str()),
        None => None,
    };
    let target = match &name {
        Some(name) => name.clone(),
        None => match &workspace {
            Some(workspace) => workspace.clone(),
            None => {
                return Err(CliError::NotInSession);
            },
        },
    };
    match resolve_current_pane(pane, target.as_str(), inherited_workspace, inherited) {
        Ok(pane) => Ok(Current::Workspace { name: target, pane }),
        Err(error) => Err(error),
    }
}

/// The pane of the environment counts only inside the workspace that is asked for.
pub proof fn lemma_foreign_pane_is_ignored(
    explicit: Option<u32>,
    workspace: Seq<char>,
    inherited_workspace: Option<Seq<char>>,
    inherited_pane: Option<Seq<char>>,
)
    requires
        inherited_workspace != Some(workspace),
    ensures
        current_pane(explicit, workspace, inherited_workspace, inherited_pane) == Ok::<
            Option<u32>,
            Seq<char>,
        >(explicit),
{
}

/// Where the first `x` stands in a text.
pub open spec fn first_x(value: Seq<char>, from: int) -> Option<int>
    decreases value.len() - from,
{
    if from < 0 || from >= value.len() {
        None
    } else if value[from] == 'x' {
        Some(from)
    } else {
        first_x(value, from + 1)
    }
}

/// A side of a grid, if the text is a number that a grid can have at all.
pub open spec fn grid_side(value: Seq<char>) -> Option<nat> {
    match text::unsigned_value(value) {
        Some(side) => if side <= u16::MAX {
            Some(side)
        } else {
            None
        },
        None => None,
    }
}

/// Columns and rows of a grid. Each is one digit.
pub open spec fn grid(value: Seq<char>) -> Result<(u16, u16), CliError> {
    match first_x(value, 0) {
        None => Err(CliError::Grid),
        Some(at) => match (grid_side(value.take(at)), grid_side(value.skip(at + 1))) {
            (None, _) => Err(CliError::GridColumns),
            (_, None) => Err(CliError::GridRows),
            (Some(columns), Some(rows)) => if value.len() == 3 && 1 <= columns <= 2 && 1 <= rows
                <= 2 {
                Ok((columns as u16, rows as u16))
            } else {
                Err(CliError::Grid)
            },
        },
    }
}

/// Reads a grid: `1x1`, `2x1`, `1x2` or `2x2`.
pub fn parse_grid(value: &str) -> (result: Result<(u16, u16), CliError>)
    ensures
        result == grid(value@),
{
    let chars = text::chars_of(value);
    let mut at: usize = 0;
    while at < chars.len() && chars[at] != 'x'
        invariant
            at <= chars@.len(),
            chars@ == value@,
            first_x(value@, 0) == first_x(value@, at as int),
        decreases chars@.len() - at,
    {
        at += 1;
    }
    if at >= chars.len() {
        return Err(CliError::Grid);
    }
    let head = vstd::slice::slice_subrange(chars.as_slice(), 0, at);
    let tail = vstd::slice::slice_subrange(chars.as_slice(), at + 1, chars.len());
    assert(head@ =~= value@.take(at as int));
    assert(tail@ =~= value@.skip(at + 1));
    let columns: u64 = match text::parse_unsigned(head, 65535) {
        Some(columns) => columns,
        None => {
            return Err(CliError::GridColumns);
        },
    };
    let rows: u64 = match text::parse_unsigned(tail, 65535) {
        Some(rows) => rows,
        None => {
            return Err(CliError::GridRows);
        },
    };
    if chars.len() != 3 || !(1 <= columns && columns <= 2) || !(1 <= rows && rows <= 2) {
        return Err(CliError::Grid);
    }
    Ok((columns as u16, rows as u16))
}

/// A single character is a side of a grid if and only if it is a digit.
proof fn lemma_grid_digit(side: Seq<char>)
    requires
        side.len() == 1,
    ensures
        grid_side(side) == (if text::is_digit(side[0]) {
            Some((side[0] as nat - 48) as nat)
        } else {
            None
        }),
{
    reveal_with_fuel(text::digits_value, 2);
    assert(side.drop_last().len() == 0);
    assert(text::unsigned_digits(side) == side || text::unsigned_digits(side).len() == 0);
}

/// The grids are `1x1`, `2x1`, `1x2` and `2x2`, and no other text is one.
pub proof fn lemma_four_grids(value: Seq<char>)
    ensures
        grid(value) is Ok <==> value == "1x1"@ || value == "2x1"@ || value == "1x2"@ || value
            == "2x2"@,
        grid("1x1"@) == Ok::<(u16, u16), CliError>((1, 1)),
        grid("2x1"@) == Ok::<(u16, u16), CliError>((2, 1)),
        grid("1x2"@) == Ok::<(u16, u16), CliError>((1, 2)),
        grid("2x2"@) == Ok::<(u16, u16), CliError>((2, 2)),
{
    reveal_strlit("1x1");
    reveal_strlit("2x1");
    reveal_strlit("1x2");
    reveal_strlit("2x2");
    lemma_grid_of_three("1x1"@);
    lemma_grid_of_three("2x1"@);
    lemma_grid_of_three("1x2"@);
    lemma_grid_of_three("2x2"@);
    if value.len() == 3 {
        lemma_grid_of_three(value);
        if grid(value) is Ok {
            assert(value =~= "1x1"@ || value =~= "2x1"@ || value =~= "1x2"@ || value =~= "2x2"@);
        }
    }
}

/// Three characters are a grid if a digit one or two stands on each side of an `x`.
proof fn lemma_grid_of_three(value: Seq<char>)
    requires
        value.len() == 3,
    ensures
        grid(value) is Ok <==> '1' <= value[0] <= '2' && value[1] == 'x' && '1' <= value[2] <= '2',
        grid(value) matches Ok(sides) ==> sides == (
            (value[0] as nat - 48) as u16,
            (value[2] as nat - 48) as u16,
        ),
{
    reveal_with_fuel(first_x, 4);
    if value[0] != 'x' && value[1] == 'x' {
        assert(first_x(value, 0) == Some(1int));
        lemma_grid_digit(value.take(1));
        lemma_grid_digit(value.skip(2));
    } else {
        match first_x(value, 0) {
            None => {},
            Some(at) => {
                if at == 0 {
                    assert(value.take(0).len() == 0);
                } else {
                    assert(at == 2);
                    assert(value.skip(3).len() == 0);
                }
            },
        }
    }
}

/// What is said when a session is restarted. What is not said stays as it was. A path is any bytes.
#[derive(Debug)]
pub struct RestartArgs {
    pub cols: Option<u16>,
    pub rows: Option<u16>,
    pub cell_width: Option<u16>,
    pub cell_height: Option<u16>,
    pub max_bytes: Option<usize>,
    pub cwd: Option<Vec<u8>>,
    pub record: Option<Vec<u8>>,
    pub color: Option<ColorMode>,
    pub opentui_host: bool,
    pub command: Vec<String>,
}

/// How a session is restarted.
#[derive(Debug)]
pub struct Restart {
    pub command: Vec<String>,
    pub cwd: Vec<u8>,
    pub record: Option<Vec<u8>>,
    pub options: Options,
}

/// The said value, or the previous one.
pub open spec fn said_or<T>(said: Option<T>, previous: T) -> T {
    match said {
        Some(value) => value,
        None => previous,
    }
}

/// The path of the recording that a session was launched with.
pub open spec fn previous_record(previous: SessionLaunch) -> Option<Seq<u8>> {
    match previous.record {
        Some(record) => Some(daemon::encoded(record@)),
        None => None,
    }
}

impl Restart {
    /// Whether a session is restarted as it was launched, except for what is said now.
    pub open spec fn follows(&self, previous: SessionLaunch, args: RestartArgs) -> bool {
        &&& self.command == if args.command@.len() == 0 {
            previous.command
        } else {
            args.command
        }
        &&& self.cwd@ == match args.cwd {
            Some(cwd) => cwd@,
            None => daemon::encoded(previous.cwd@),
        }
        &&& daemon::optional_path(self.record) == match args.record {
            Some(record) => Some(record@),
            None => previous_record(previous),
        }
        &&& self.options.cols == said_or(args.cols, previous.cols)
        &&& self.options.rows == said_or(args.rows, previous.rows)
        &&& self.options.cell_width == said_or(args.cell_width, previous.cell_width)
        &&& self.options.cell_height == said_or(args.cell_height, previous.cell_height)
        &&& self.options.max_bytes == said_or(args.max_bytes, previous.max_bytes)
        &&& self.options.opentui_host == (args.opentui_host || previous.opentui_host)
        &&& self.options.color == said_or(args.color, previous.color)
        &&& self.options.settle == 250_000_000
        &&& self.options.deadline == 5_000_000_000
        &&& self.options.input@.len() == 0
        &&& self.options.initial_delay == 0
        &&& self.options.wait_for is None
        &&& self.options.env.wf()
        &&& self.options.env@.len() == 0
        &&& self.options.inherit_env
    }
}

/// Without anything said, a session is restarted with the command, the directory, the recording
/// and the terminal that it had.
pub proof fn lemma_plain_restart_keeps_settings(
    restart: Restart,
    previous: SessionLaunch,
    args: RestartArgs,
)
    requires
        restart.follows(previous, args),
        args.cols is None,
        args.rows is None,
        args.cell_width is None,
        args.cell_height is None,
        args.max_bytes is None,
        args.cwd is None,
        args.record is None,
        args.color is None,
        !args.opentui_host,
        args.command@.len() == 0,
    ensures
        restart.command == previous.command,
        restart.cwd@ == daemon::encoded(previous.cwd@),
        daemon::optional_path(restart.record) == previous_record(previous),
        restart.options.cols == previous.cols,
        restart.options.rows == previous.rows,
        restart.options.cell_width == previous.cell_width,
        restart.options.cell_height == previous.cell_height,
        restart.options.max_bytes == previous.max_bytes,
        restart.options.opentui_host == previous.opentui_host,
        restart.options.color == previous.color,
{
}

/// How a session is restarted: as it was launched, except for what is said now.
pub fn restart_session(previous: SessionLaunch, args: RestartArgs) -> (result: Result<
    Restart,
    CliError,
>)
    ensures
        result is Ok <==> said_or(args.cols, previous.cols) != 0 && said_or(
            args.rows,
            previous.rows,
        ) != 0,
        result matches Err(error) ==> error is ZeroTerminal,
        result matches Ok(restart) ==> restart.follows(previous, args),
{
    let cols: u16 = match args.cols {
        Some(cols) => cols,
        None => previous.cols,
    };
    let rows: u16 = match args.rows {
        Some(rows) => rows,
        None => previous.rows,
    };
    match validate_terminal_size(cols, rows) {
        Ok(()) => {},
        Err(error) => {
            return Err(error);
        },
    }
    let command = if args.command.len() == 0 {
        previous.command
    } else {
        args.command
    };
    let cwd = match args.cwd {
        Some(cwd) => cwd,
        None => vstd::slice::slice_to_vec(previous.cwd.as_str().as_bytes()),
    };
    let record = match args.record {
        Some(record) => Some(record),
        None => match previous.record {
            Some(record) => Some(vstd::slice::slice_to_vec(record.as_str().as_bytes())),
            None => None,
        },
    };
    let mut options = Options::default();
    options.cols = cols;
    options.rows = rows;
    options.cell_width = match args.cell_width {
        Some(cell_width) => cell_width,
        None => previous.cell_width,
    };
    options.cell_height = match args.cell_height {
        Some(cell_height) => cell_height,
        None => previous.cell_height,
    };
    options.max_bytes = match args.max_bytes {
        Some(max_bytes) => max_bytes,
        None => previous.max_bytes,
    };
    options.opentui_host = args.opentui_host || previous.opentui_host;
    options.color = match args.color {
        Some(color) => color,
        None => previous.color,
    };
    Ok(Restart { command, cwd, record, options })
}

/// The word for the state of a session.
pub open spec fn state_word(state: SessionState) -> Seq<char> {
    match state {
        SessionState::Running => "running"@,
        SessionState::Exited => "exited"@,
    }
}

/// The word for the state of a session.
pub fn session_state(state: SessionState) -> (word: &'static str)
    ensures
        word@ == state_word(state),
{
    match state {
        SessionState::Running => "running",
        SessionState::Exited => "exited",
    }
}

/// Whether a session runs.
pub open spec fn runs(entry: NamedSessionStatus) -> bool {
    entry.status matches Some(status) && status.state == SessionState::Running
}

/// Whether a session may have to be removed: its command has exited or its socket is stale.
pub open spec fn removable(entry: NamedSessionStatus) -> bool {
    ||| entry.status matches Some(status) && status.state == SessionState::Exited
    ||| entry.unavailable == Some(UnavailableReason::Stale)
}

/// Whether an entry is listed: the running ones, or all of them.
pub fn is_listed(entry: &NamedSessionStatus, all: bool) -> (listed: bool)
    ensures
        listed == (all || runs(*entry)),
{
    if all {
        return true;
    }
    match &entry.status {
        Some(status) => status.state == SessionState::Running,
        None => false,
    }
}

/// Whether an entry is a candidate for removal.
pub fn is_removable(entry: &NamedSessionStatus) -> (candidate: bool)
    ensures
        candidate == removable(*entry),
{
    let exited = match &entry.status {
        Some(status) => status.state == SessionState::Exited,
        None => false,
    };
    let stale = match entry.unavailable {
        Some(reason) => reason == UnavailableReason::Stale,
        None => false,
    };
    exited || stale
}

/// The entries that are listed, in their order.
pub open spec fn listed(entries: Seq<NamedSessionStatus>, all: bool) -> Seq<NamedSessionStatus>
    decreases entries.len(),
{
    if entries.len() == 0 {
        Seq::empty()
    } else if all || runs(entries.last()) {
        listed(entries.drop_last(), all).push(entries.last())
    } else {
        listed(entries.drop_last(), all)
    }
}

/// The entries that are candidates for removal, in their order.
pub open spec fn candidates(entries: Seq<NamedSessionStatus>) -> Seq<NamedSessionStatus>
    decreases entries.len(),
{
    if entries.len() == 0 {
        Seq::empty()
    } else if removable(entries.last()) {
        candidates(entries.drop_last()).push(entries.last())
    } else {
        candidates(entries.drop_last())
    }
}

/// Picks the entries that are listed.
pub fn list(entries: Vec<NamedSessionStatus>, all: bool) -> (picked: Vec<NamedSessionStatus>)
    ensures
        picked@ == listed(entries@, all),
{
    let mut picked: Vec<NamedSessionStatus> = Vec::new();
    for entry in iter: entries
        invariant
            iter.seq() == entries@,
            picked@ == listed(entries@.take(iter.index() as int), all),
    {
        let ghost index = iter.index() as int;
        assert(entries@.take(index + 1).drop_last() =~= entries@.take(index));
        assert(entries@.take(index + 1).last() == entry);
        if is_listed(&entry, all) {
            picked.push(entry);
        }
    }
    assert(entries@.take(entries@.len() as int) =~= entries@);
    picked
}

/// Picks the entries that are candidates for removal.
pub fn prune(entries: Vec<NamedSessionStatus>) -> (picked: Vec<NamedSessionStatus>)
    ensures
        picked@ == candidates(entries@),
{
    let mut picked: Vec<NamedSessionStatus> = Vec::new();
    for entry in iter: entries
        invariant
            iter.seq() == entries@,
            picked@ == candidates(entries@.take(iter.index() as int)),
    {
        let ghost index = iter.index() as int;
        assert(entries@.take(index + 1).drop_last() =~= entries@.take(index));
        assert(entries@.take(index + 1).last() == entry);
        if is_removable(&entry) {
            picked.push(entry);
        }
    }
    assert(entries@.take(entries@.len() as int) =~= entries@);
    picked
}

/// A session that runs and answers is no candidate for removal.
pub proof fn lemma_running_is_not_removable(entry: NamedSessionStatus)
    requires
        runs(entry),
        entry.unavailable is None,
    ensures
        !removable(entry),
{
}

/// The word for what was removed.
pub fn prune_word(kind: PruneKind) -> (word: &'static str)
    ensures
        word@ == match kind {
            PruneKind::Exited => "exited"@,
            PruneKind::Stale => "stale"@,
        },
{
    match kind {
        PruneKind::Exited => "exited",
        PruneKind::Stale => "stale",
    }
}

/// What is said at the end of a removal.
pub fn prune_summary(dry_run: bool, removed: u64) -> (line: String)
    ensures
        line@ == (if dry_run {
            "would remove"@
        } else {
            "removed"@
        }) + " "@ + text::decimal_text(removed as nat),
{
    let mut line = if dry_run {
        "would remove".to_owned()
    } else {
        "removed".to_owned()
    };
    line.append(" ");
    line.append(text::decimal(removed).as_str());
    line
}

/// How a size is written.
pub open spec fn size_text(cols: u16, rows: u16) -> Seq<char> {
    text::decimal_text(cols as nat) + "x"@ + text::decimal_text(rows as nat)
}

/// Writes a size.
pub fn size(cols: u16, rows: u16) -> (text: String)
    ensures
        text@ == size_text(cols, rows),
{
    let mut text = text::decimal(cols as u64);
    text.append("x");
    text.append(text::decimal(rows as u64).as_str());
    text
}

/// The line that lists a session.
pub open spec fn session_line(entry: NamedSessionStatus) -> Seq<char> {
    match entry.status {
        Some(status) => entry.name@ + "\t"@ + state_word(status.state) + "\t"@ + size_text(
            status.cols,
            status.rows,
        ) + "\t"@ + (if status.recording {
            "recording"@
        } else {
            "-"@
        }),
        None => entry.name@ + "\t"@ + (if entry.unavailable == Some(
            UnavailableReason::IncompatibleProtocol,
        ) {
            "incompatible"@
        } else {
            "stale"@
        }) + "\t-\t-"@,
    }
}

/// Writes the line that lists a session.
pub fn list_line(entry: &NamedSessionStatus) -> (line: String)
    ensures
        line@ == session_line(*entry),
{
    let mut line = entry.name.clone();
    line.append("\t");
    match &entry.status {
        Some(status) => {
            line.append(session_state(status.state));
            line.append("\t");
            line.append(size(status.cols, status.rows).as_str());
            line.append("\t");
            if status.recording {
                line.append("recording");
            } else {
                line.append("-");
            }
        },
        None => {
            let incompatible = match entry.unavailable {
                Some(reason) => reason == UnavailableReason::IncompatibleProtocol,
                None => false,
            };
            if incompatible {
                line.append("incompatible");
            } else {
                line.append("stale");
            }
            line.append("\t-\t-");
        },
    }
    line
}

/// Texts with `separator` between each two.
pub open spec fn joined_texts(texts: Seq<Seq<char>>, separator: Seq<char>) -> Seq<char>
    decreases texts.len(),
{
    if texts.len() == 0 {
        Seq::empty()
    } else if texts.len() == 1 {
        texts[0]
    } else {
        joined_texts(texts.drop_last(), separator) + separator + texts.last()
    }
}

/// Joins texts with `separator` between each two.
pub fn join_texts(texts: &[String], separator: &str) -> (joined: String)
    ensures
        joined@ == joined_texts(text::views(texts@), separator@),
{
    let ghost views = text::views(texts@);
    let mut joined = String::new();
    let mut index: usize = 0;
    assert(joined@ =~= joined_texts(views.take(0), separator@));
    while index < texts.len()
        invariant
            index <= texts@.len(),
            views == text::views(texts@),
            joined@ == joined_texts(views.take(index as int), separator@),
        decreases texts@.len() - index,
    {
        let ghost held = joined@;
        if index > 0 {
            joined.append(separator);
        }
        joined.append(texts[index].as_str());
        assert(views.take(index + 1).drop_last() =~= views.take(index as int));
        assert(views.take(index + 1).last() == texts@[index as int]@);
        if index == 0 {
            assert(views.take(1)[0] == views[0]);
            assert(held =~= Seq::<char>::empty());
            assert(joined@ =~= views[0]);
        }
        index += 1;
    }
    assert(views.take(index as int) =~= views);
    joined
}

/// Whether a character is a control character.
pub open spec fn control_char(ch: char) -> bool {
    ch as u32 <= 0x1f || 0x7f <= ch as u32 <= 0x9f
}

/// A text without its control characters.
pub open spec fn printable(text: Seq<char>) -> Seq<char>
    decreases text.len(),
{
    if text.len() == 0 {
        Seq::empty()
    } else if control_char(text.last()) {
        printable(text.drop_last())
    } else {
        printable(text.drop_last()).push(text.last())
    }
}

/// Takes the control characters out of a text.
pub fn printable_text(value: &str) -> (text: String)
    ensures
        text@ == printable(value@),
{
    let chars = text::chars_of(value);
    let mut text = String::new();
    let mut index: usize = 0;
    assert(text@ =~= printable(value@.take(0)));
    while index < chars.len()
        invariant
            index <= chars@.len(),
            chars@ == value@,
            text@ == printable(value@.take(index as int)),
        decreases chars@.len() - index,
    {
        let ch = chars[index];
        assert(value@.take(index + 1).drop_last() =~= value@.take(index as int));
        if !(ch as u32 <= 0x1f || (0x7f <= ch as u32 && ch as u32 <= 0x9f)) {
            text.push(ch);
        }
        index += 1;
    }
    assert(value@.take(index as int) =~= value@);
    text
}

/// What is printed of a title never moves the cursor: it holds no control character.
pub proof fn lemma_printable_has_no_controls(text: Seq<char>, index: int)
    requires
        0 <= index < printable(text).len(),
    ensures
        !control_char(printable(text)[index]),
    decreases text.len(),
{
    if text.len() > 0 {
        if control_char(text.last()) || index < printable(text.drop_last()).len() {
            lemma_printable_has_no_controls(text.drop_last(), index);
        }
    }
}

/// The word for what is selected.
pub open spec fn active_word(active: bool) -> Seq<char> {
    if active {
        "active"@
    } else {
        ""@
    }
}

/// The line that lists a pane.
pub open spec fn pane_text(pane: PaneStatus) -> Seq<char> {
    text::decimal_text(pane.id as nat) + "\t"@ + active_word(pane.active) + "\t"@
        + text::decimal_text(pane.x as nat) + ","@ + text::decimal_text(pane.y as nat) + "\t"@
        + size_text(pane.cols, pane.rows) + "\t"@ + printable(pane.title@) + "\t"@ + joined_texts(
        text::views(pane.command@),
        " "@,
    )
}

/// What is printed of a named moment of a recording.
pub fn marker_line(marker: &Marker) -> (line: String)
    ensures
        line@ == text::decimal_text(marker.at_ms as nat) + "\t"@ + marker.name@,
{
    let mut line = text::decimal(marker.at_ms);
    line.append("\t");
    line.append(marker.name.as_str());
    line
}

/// Writes the line that lists a pane.
pub fn pane_line(pane: &PaneStatus) -> (line: String)
    ensures
        line@ == pane_text(*pane),
{
    let mut line = text::decimal(pane.id as u64);
    line.append("\t");
    if pane.active {
        line.append("active");
    } else {
        line.append("");
    }
    line.append("\t");
    line.append(text::decimal(pane.x as u64).as_str());
    line.append(",");
    line.append(text::decimal(pane.y as u64).as_str());
    line.append("\t");
    line.append(size(pane.cols, pane.rows).as_str());
    line.append("\t");
    line.append(printable_text(pane.title.as_str()).as_str());
    line.append("\t");
    line.append(join_texts(pane.command.as_slice(), " ").as_str());
    line
}

/// The words for what happened in a window.
pub open spec fn activity_words(kinds: Seq<ActivityKind>) -> Seq<Seq<char>> {
    kinds.map_values(|kind: ActivityKind| kind.word())
}

/// The words for what happened in a window.
pub fn activities(kinds: &Vec<ActivityKind>) -> (words: Vec<String>)
    ensures
        text::views(words@) == activity_words(kinds@),
{
    let mut words: Vec<String> = Vec::new();
    let mut index: usize = 0;
    while index < kinds.len()
        invariant
            index <= kinds@.len(),
            text::views(words@) =~= activity_words(kinds@).take(index as int),
        decreases kinds@.len() - index,
    {
        text::push_text(&mut words, kinds[index].as_str());
        assert(activity_words(kinds@).take(index + 1) =~= activity_words(kinds@).take(
            index as int,
        ).push(kinds@[index as int].word()));
        index += 1;
    }
    assert(activity_words(kinds@).take(index as int) =~= activity_words(kinds@));
    words
}

/// The line that lists a window.
pub open spec fn window_text(window: WindowStatus) -> Seq<char> {
    text::decimal_text(window.index as nat) + "\t"@ + active_word(window.active) + "\t"@
        + window.name@ + "\t"@ + text::decimal_text(window.pane_count as nat) + " panes\t"@
        + size_text(window.cols, window.rows) + "\t"@ + joined_texts(
        activity_words(window.activity_kinds@),
        ","@,
    )
}

/// Writes the line that lists a window.
pub fn window_line(window: &WindowStatus) -> (line: String)
    ensures
        line@ == window_text(*window),
{
    let mut line = text::decimal(window.index as u64);
    line.append("\t");
    if window.active {
        line.append("active");
    } else {
        line.append("");
    }
    line.append("\t");
    line.append(window.name.as_str());
    line.append("\t");
    line.append(text::decimal(window.pane_count as u64).as_str());
    line.append(" panes\t");
    line.append(size(window.cols, window.rows).as_str());
    line.append("\t");
    line.append(join_texts(activities(&window.activity_kinds).as_slice(), ",").as_str());
    line
}

/// What is printed of a session's status.
pub open spec fn status_text(name: Seq<char>, status: SessionStatus) -> Seq<char> {
    name + " "@ + state_word(status.state) + "\ncwd: "@ + status.launch.cwd@ + "\ncommand: "@
        + joined_texts(text::views(status.launch.command@), " "@) + "\nviewport: "@ + size_text(
        status.cols,
        status.rows,
    ) + "\nrecording: "@ + match status.launch.record {
        Some(record) => record@,
        None => "none"@,
    }
}

/// Writes what is printed of a session's status.
pub fn status_lines(name: &str, status: &SessionStatus) -> (lines: String)
    ensures
        lines@ == status_text(name@, *status),
{
    let mut lines = name.to_owned();
    lines.append(" ");
    lines.append(session_state(status.state));
    lines.append("\ncwd: ");
    lines.append(status.launch.cwd.as_str());
    lines.append("\ncommand: ");
    lines.append(join_texts(status.launch.command.as_slice(), " ").as_str());
    lines.append("\nviewport: ");
    lines.append(size(status.cols, status.rows).as_str());
    lines.append("\nrecording: ");
    match &status.launch.record {
        Some(record) => lines.append(record.as_str()),
        None => lines.append("none"),
    }
    lines
}

/// What is printed of the session that the command runs in.
pub fn current_session_lines(name: &str, status: &SessionStatus) -> (lines: String)
    ensures
        lines@ == "session: "@ + name@ + "\nstate: "@ + state_word(status.state) + "\ncwd: "@
            + status.launch.cwd@ + "\ncommand: "@ + joined_texts(
            text::views(status.launch.command@),
            " "@,
        ),
{
    let mut lines = "session: ".to_owned();
    lines.append(name);
    lines.append("\nstate: ");
    lines.append(session_state(status.state));
    lines.append("\ncwd: ");
    lines.append(status.launch.cwd.as_str());
    lines.append("\ncommand: ");
    lines.append(join_texts(status.launch.command.as_slice(), " ").as_str());
    lines
}

/// What is printed of the place in a workspace.
pub fn context_lines(context: &WorkspaceContext) -> (lines: String)
    ensures
        lines@ == "workspace: "@ + context.workspace@ + "\nwindow: "@ + text::decimal_text(
            context.window_index as nat,
        ) + " ("@ + text::decimal_text(context.window_id as nat) + ":"@ + context.window@
            + ")\npane: "@ + text::decimal_text(context.pane as nat) + "\ntabs: "@
            + context.tab_position.word(),
{
    let mut lines = "workspace: ".to_owned();
    lines.append(context.workspace.as_str());
    lines.append("\nwindow: ");
    lines.append(text::decimal(context.window_index as u64).as_str());
    lines.append(" (");
    lines.append(text::decimal(context.window_id as u64).as_str());
    lines.append(":");
    lines.append(context.window.as_str());
    lines.append(")\npane: ");
    lines.append(text::decimal(context.pane as u64).as_str());
    lines.append("\ntabs: ");
    lines.append(context.tab_position.as_str());
    lines
}

/// The name of a workspace that is run without one: the executable's, or `workspace` where no
/// command is given either.
pub fn run_name(name: Option<String>, command: &[String]) -> (result: Result<
    String,
    crate::session::SessionError,
>)
    ensures
        name matches Some(name) ==> result == Ok::<String, crate::session::SessionError>(name),
        name is None && command@.len() == 0 ==> result is Ok && result->Ok_0@ == "workspace"@,
        name is None && command@.len() > 0 ==> (result is Ok <==> crate::session::basename(
            command@[0]@,
        ) is Some && crate::session::names_session(
            crate::session::basename(command@[0]@)->0,
        )) && (result matches Ok(inferred) ==> Some(inferred@) == crate::session::basename(
            command@[0]@,
        )),
        result matches Err(error) ==> crate::session::tells_no_name(error, command@),
{
    match name {
        Some(name) => Ok(name),
        None => {
            if command.len() == 0 {
                return Ok("workspace".to_owned());
            }
            crate::session::infer_name(command)
        },
    }
}

/// A command is read in a terminal of 80 columns and 24 rows, may write 16 MiB, and has 5 seconds to
/// show something and then be quiet for a quarter of one, unless something else is said.
pub proof fn lemma_sources_have_defaults(args: SourceArgs)
    ensures
        args.width() == if args.cols is Some {
            args.cols->0
        } else {
            80
        },
        args.height() == if args.rows is Some {
            args.rows->0
        } else {
            24
        },
        args.byte_limit() == if args.max_bytes is Some {
            args.max_bytes->0
        } else {
            16_777_216
        },
        args.settle_ms is Some ==> args.timing().settle_ms == args.settle_ms->0,
        args.deadline_ms is Some ==> args.timing().deadline_ms == args.deadline_ms->0,
        args.name is None && args.settle_ms is None ==> args.timing().settle_ms == 250,
        args.name is None && args.deadline_ms is None ==> args.timing().deadline_ms == 5000,
{
}

/// A screen is read from one source, and only with options that mean something there: a recording
/// with a moment at most, a session with timing at most, a file of output in a terminal of some size,
/// or a command. A piped command takes no input and has no delay, no host and no quiet period.
pub proof fn lemma_one_source_is_read(args: SourceArgs)
    ensures
        args.complaint() is None <==> {
            let sized = args.cols is Some || args.rows is Some;
            let timed = args.settle_ms is Some || args.deadline_ms is Some;
            let shaped = args.color is Some || args.initial_delay_ms is Some || args.wait_for
                is Some || args.cwd is Some || args.opentui_host || args.send@.len() > 0;
            let limited = args.max_bytes is Some;
            let commanded = args.command@.len() > 0;
            let moment = args.at_ms is Some || args.at_marker is Some;
            let empty = args.cols == Some(0u16) || args.rows == Some(0u16);
            ||| args.recording is Some && args.name is None && args.input is None && !args.pipe
                && !commanded && !sized && !timed && !shaped && !limited
            ||| args.recording is None && !moment && args.name is Some && args.input is None
                && !args.pipe && !commanded && !sized && !shaped && !limited
            ||| args.recording is None && !moment && args.name is None && args.input is Some
                && !args.pipe && !commanded && !empty && !timed && !shaped
            ||| args.recording is None && !moment && args.name is None && args.input is None
                && commanded && !empty && !(args.pipe && (args.send@.len() > 0 || args.opentui_host
                || args.initial_delay_ms is Some || args.settle_ms is Some))
        },
        args.runs_command() <==> args.recording is None && args.name is None && args.input is None,
{
}

/// A command is run as the command line says: in a terminal of that size, with that timing and delay,
/// waiting for that text and sending that input.
pub proof fn lemma_commands_are_run_as_said(
    args: SourceArgs,
    options: Options,
    cell_width: u16,
    cell_height: u16,
)
    requires
        args.asks_for(options, cell_width, cell_height),
    ensures
        args.cols is Some ==> options.cols == args.cols->0,
        args.rows is Some ==> options.rows == args.rows->0,
        options.cell_width == cell_width,
        options.cell_height == cell_height,
        args.settle_ms is Some ==> options.settle == args.settle_ms->0 * 1_000_000,
        args.deadline_ms is Some ==> options.deadline == args.deadline_ms->0 * 1_000_000,
        args.initial_delay_ms is Some ==> options.initial_delay == args.initial_delay_ms->0
            * 1_000_000,
        args.initial_delay_ms is None ==> options.initial_delay == 0,
        options.wait_for is Some <==> args.wait_for is Some,
        args.wait_for is Some ==> options.wait_for->0@ == args.wait_for->0@,
        options.input@ == input::joined_bytes(text::views(args.send@)),
        options.opentui_host == args.opentui_host,
        args.color is Some ==> options.color == args.color->0,
        args.color is None && args.pipe ==> options.color == ColorMode::Always,
        args.color is None && !args.pipe ==> options.color == ColorMode::Auto,
        args.max_bytes is Some ==> options.max_bytes == args.max_bytes->0,
        options.inherit_env,
{
}

/// What is said at a restart is what the session is restarted with.
pub proof fn lemma_said_settings_win(restart: Restart, previous: SessionLaunch, args: RestartArgs)
    requires
        restart.follows(previous, args),
    ensures
        args.cols matches Some(cols) ==> restart.options.cols == cols,
        args.rows matches Some(rows) ==> restart.options.rows == rows,
        args.cell_width matches Some(cell_width) ==> restart.options.cell_width == cell_width,
        args.cell_height matches Some(cell_height) ==> restart.options.cell_height == cell_height,
        args.max_bytes matches Some(max_bytes) ==> restart.options.max_bytes == max_bytes,
        args.cwd matches Some(cwd) ==> restart.cwd@ == cwd@,
        args.record matches Some(record) ==> restart.record is Some && restart.record->0@ == record@,
        args.color matches Some(color) ==> restart.options.color == color,
        args.opentui_host ==> restart.options.opentui_host,
        args.command@.len() > 0 ==> restart.command == args.command,
{
}

/// A format has its own extension, and only text and the exact stream are written as they are.
pub proof fn lemma_formats_are_written(captured: Shot, format: ShotFormat)
    ensures
        match format {
            ShotFormat::Png => format.word() == "png"@ && plain_bytes(captured, format) is None,
            ShotFormat::Svg => format.word() == "svg"@ && plain_bytes(captured, format) is None,
            ShotFormat::Json => format.word() == "json"@ && plain_bytes(captured, format) is None,
            ShotFormat::Txt => format.word() == "txt"@ && plain_bytes(captured, format) == Some(
                vstd::utf8::encode_utf8(captured.frame@.text()),
            ),
            ShotFormat::Ansi => format.word() == "ansi"@ && plain_bytes(captured, format) == Some(
                captured.ansi@,
            ),
        },
{
}

/// No format is written twice, and a vector image is written first, then the image, the structure,
/// the text and the stream.
pub proof fn lemma_outputs_come_in_order(formats: Seq<ShotFormat>, first: int, second: int)
    requires
        0 <= first < second < ordered(formats, 5).len(),
    ensures
        ({
            let rank = |format: ShotFormat|
                match format {
                    ShotFormat::Svg => 0int,
                    ShotFormat::Png => 1,
                    ShotFormat::Json => 2,
                    ShotFormat::Txt => 3,
                    ShotFormat::Ansi => 4,
                };
            rank(ordered(formats, 5)[first]) < rank(ordered(formats, 5)[second])
        }),
{
    reveal_with_fuel(ordered, 6);
}

proof fn lemma_last_at_tail(bytes: Seq<u8>, tail: Seq<u8>, byte: u8)
    requires
        !tail.contains(byte),
    ensures
        last_at(bytes + tail, byte) == last_at(bytes, byte),
    decreases tail.len(),
{
    if tail.len() == 0 {
        assert(bytes + tail =~= bytes);
    } else {
        let front = tail.drop_last();
        assert((bytes + tail).drop_last() =~= bytes + front);
        assert((bytes + tail).last() == tail[tail.len() - 1]);
        assert forall|i: int| 0 <= i < front.len() implies front[i] != byte by {
            assert(tail[i] == front[i]);
        }
        lemma_last_at_tail(bytes, front, byte);
    }
}

/// A file gets the extension of its format behind a dot, in place of the one it has. What stands
/// before that stays as it is.
pub proof fn lemma_extension_is_replaced(path: Seq<u8>, old_extension: Seq<u8>, extension: Seq<char>)
    requires
        path.len() > 0,
        path.last() != 0x2f,
        old_extension.len() > 0,
        !old_extension.contains(0x2e),
        !old_extension.contains(0x2f),
    ensures
        with_extension(path.push(0x2e) + old_extension, extension) == path.push(0x2e)
            + vstd::utf8::encode_utf8(extension),
        !path.contains(0x2e) ==> with_extension(path, extension) == path.push(0x2e)
            + vstd::utf8::encode_utf8(extension),
{
    let whole = path.push(0x2e) + old_extension;
    let last = old_extension[old_extension.len() - 1];
    assert(whole.last() == last);
    assert(last != 0x2e && last != 0x2f);
    assert(named_part(whole) == whole);
    lemma_last_at_tail(path.push(0x2e), old_extension, 0x2e);
    lemma_last_at_tail(path.push(0x2e), old_extension, 0x2f);
    assert(path.push(0x2e).drop_last() =~= path);
    let start = last_at(whole, 0x2f) + 1;
    lemma_last_at(path, 0x2f);
    assert(last_at(path.push(0x2e), 0x2f) == last_at(path, 0x2f));
    assert(start < path.len()) by {
        if last_at(path, 0x2f) == path.len() - 1 {
            assert(path[path.len() - 1] == 0x2f);
        }
    }
    assert(last_at(whole, 0x2e) == path.len());
    assert(whole.take(path.len() as int) =~= path);
    let component = whole.skip(start);
    assert(component[component.len() - 1] == last);
    assert(component != seq![0x2eu8, 0x2eu8]);
    if !path.contains(0x2e) {
        assert(path.last() == path[path.len() - 1]);
        assert(named_part(path) == path);
        lemma_last_at(path, 0x2e);
        let own = path.skip(start);
        assert(own[own.len() - 1] == path[path.len() - 1]);
        assert(own != seq![0x2eu8, 0x2eu8]);
    }
}

/// The pane that is said is meant. Otherwise, inside the workspace, the one that the command runs in
/// is, where there is one.
pub proof fn lemma_current_pane_is_found(
    explicit: Option<u32>,
    workspace: Seq<char>,
    inherited: Option<Seq<char>>,
    pane: u32,
)
    ensures
        explicit is Some ==> current_pane(explicit, workspace, Some(workspace), inherited) == Ok::<
            Option<u32>,
            Seq<char>,
        >(explicit),
        current_pane(None, workspace, Some(workspace), None) == Ok::<Option<u32>, Seq<char>>(None),
        current_pane(
            None,
            workspace,
            Some(workspace),
            Some(text::decimal_text(pane as nat)),
        ) == Ok::<Option<u32>, Seq<char>>(Some(pane)),
{
    text::lemma_decimal_round_trip(pane as nat);
}

/// The sessions that run are listed, or all of them, in their order. Those whose command has exited
/// or whose socket is stale are candidates for removal.
pub proof fn lemma_sessions_are_picked(entries: Seq<NamedSessionStatus>, all: bool)
    ensures
        listed(entries, all) == entries.filter(
            |entry: NamedSessionStatus|
                all || (entry.status is Some && entry.status->0.state is Running),
        ),
        candidates(entries) == entries.filter(
            |entry: NamedSessionStatus|
                (entry.status is Some && entry.status->0.state is Exited) || entry.unavailable
                    == Some(UnavailableReason::Stale),
        ),
    decreases entries.len(),
{
    reveal(Seq::filter);
    if entries.len() > 0 {
        lemma_sessions_are_picked(entries.drop_last(), all);
    } else {
        assert(listed(entries, all) =~= entries);
        assert(candidates(entries) =~= entries);
    }
}

/// A listed session is shown with its name, its state, its size and whether it is recorded. One that
/// does not answer is shown as incompatible or stale.
pub proof fn lemma_session_line_tells(entry: NamedSessionStatus)
    ensures
        entry.status matches Some(status) ==> session_line(entry) == entry.name@ + "\t"@ + (
        if status.state is Running {
            "running"@
        } else {
            "exited"@
        }) + "\t"@ + (text::decimal_text(status.cols as nat) + "x"@ + text::decimal_text(
            status.rows as nat,
        )) + "\t"@ + (if status.recording {
            "recording"@
        } else {
            "-"@
        }),
        entry.status is None ==> session_line(entry) == entry.name@ + "\t"@ + (
        if entry.unavailable == Some(UnavailableReason::IncompatibleProtocol) {
            "incompatible"@
        } else {
            "stale"@
        }) + "\t-\t-"@,
{
}

/// A pane is shown with its number, whether it is selected, its place, its size, its title and its
/// command.
pub proof fn lemma_pane_line_tells(pane: PaneStatus)
    ensures
        pane_text(pane) == text::decimal_text(pane.id as nat) + "\t"@ + (if pane.active {
            "active"@
        } else {
            ""@
        }) + "\t"@ + text::decimal_text(pane.x as nat) + ","@ + text::decimal_text(pane.y as nat)
            + "\t"@ + (text::decimal_text(pane.cols as nat) + "x"@ + text::decimal_text(
            pane.rows as nat,
        )) + "\t"@ + printable(pane.title@) + "\t"@ + joined_texts(
            text::views(pane.command@),
            " "@,
        ),
{
}

/// A window is shown with its place, whether it is selected, its name, how many panes it has, its
/// size and what happened in it.
pub proof fn lemma_window_line_tells(window: WindowStatus)
    ensures
        window_text(window) == text::decimal_text(window.index as nat) + "\t"@ + (
        if window.active {
            "active"@
        } else {
            ""@
        }) + "\t"@ + window.name@ + "\t"@ + text::decimal_text(window.pane_count as nat)
            + " panes\t"@ + (text::decimal_text(window.cols as nat) + "x"@ + text::decimal_text(
            window.rows as nat,
        )) + "\t"@ + joined_texts(
            window.activity_kinds@.map_values(
                |kind: ActivityKind|
                    match kind {
                        ActivityKind::Output => "output"@,
                        ActivityKind::Bell => "bell"@,
                        ActivityKind::Exit => "exit"@,
                    },
            ),
            ","@,
        ),
{
    assert(activity_words(window.activity_kinds@) =~= window.activity_kinds@.map_values(
        |kind: ActivityKind|
            match kind {
                ActivityKind::Output => "output"@,
                ActivityKind::Bell => "bell"@,
                ActivityKind::Exit => "exit"@,
            },
    ));
}

/// What is printed of a title is the title without the characters that control a terminal, in its
/// order.
pub proof fn lemma_printable_keeps_the_rest(value: Seq<char>)
    ensures
        printable(value) == value.filter(
            |ch: char| !(ch as u32 <= 0x1f || 0x7f <= ch as u32 <= 0x9f),
        ),
    decreases value.len(),
{
    reveal(Seq::filter);
    if value.len() > 0 {
        lemma_printable_keeps_the_rest(value.drop_last());
    } else {
        assert(printable(value) =~= value);
    }
}

/// Joined texts stand in their order, with the separator between each two and nowhere else.
pub proof fn lemma_texts_are_joined(texts: Seq<Seq<char>>, last: Seq<char>, separator: Seq<char>)
    ensures
        joined_texts(Seq::<Seq<char>>::empty(), separator).len() == 0,
        joined_texts(seq![last], separator) == last,
        texts.len() > 0 ==> joined_texts(texts.push(last), separator) == joined_texts(
            texts,
            separator,
        ) + separator + last,
{
    assert(texts.push(last).drop_last() =~= texts);
}

/// A session's status tells its name and state, where it runs, its command, its size, and the file
/// that it is recorded in or that it is not.
pub proof fn lemma_status_tells(name: Seq<char>, status: SessionStatus)
    ensures
        ({
            let told = name + " "@ + (if status.state is Running {
                "running"@
            } else {
                "exited"@
            }) + "\ncwd: "@ + status.launch.cwd@ + "\ncommand: "@ + joined_texts(
                text::views(status.launch.command@),
                " "@,
            ) + "\nviewport: "@ + (text::decimal_text(status.cols as nat) + "x"@
                + text::decimal_text(status.rows as nat)) + "\nrecording: "@;
            &&& status.launch.record matches Some(record) ==> status_text(name, status) == told
                + record@
            &&& status.launch.record is None ==> status_text(name, status) == told + "none"@
        }),
{
}

} // verus!
