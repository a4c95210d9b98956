//! Observing one settled frame of a terminal application.
use crate::environment;
use crate::environment::{EnvAction, Variables};
use crate::frame;
use crate::frame::{Color, Frame};
use crate::semantic;
use crate::terminal_theme;
use crate::terminal_theme::TerminalTheme;
use crate::text;
use vstd::prelude::*;

verus! {

/// Version that the host announces to applications.
pub const VERSION: &'static str = "0.1.0";

/// Environment policy applied to a launched command's color configuration.
#[derive(Clone, Copy, Debug, PartialEq, Eq, Structural)]
pub enum ColorMode {
    Auto,
    Always,
    Never,
}

/// Configuration for observing one terminal shot or starting a live session. Durations are in
/// nanoseconds.
#[derive(Debug)]
pub struct Options {
    pub cols: u16,
    pub rows: u16,
    pub cell_width: u16,
    pub cell_height: u16,
    pub settle: u128,
    pub deadline: u128,
    pub input: Vec<u8>,
    pub initial_delay: u128,
    pub wait_for: Option<String>,
    pub max_bytes: usize,
    pub opentui_host: bool,
    pub color: ColorMode,
    /// Additional environment values set in the observed terminal application.
    pub env: Variables,
    /// Whether the terminal application inherits the parent process environment.
    pub inherit_env: bool,
}

impl Default for Options {
    fn default() -> (options: Self)
        ensures
            options.cols == 80,
            options.rows == 24,
            options.cell_width == 9,
            options.cell_height == 18,
            options.settle == 250_000_000,
            options.deadline == 5_000_000_000,
            options.input@ == Seq::<u8>::empty(),
            options.initial_delay == 0,
            options.wait_for is None,
            options.max_bytes == 16 * 1024 * 1024,
            !options.opentui_host,
            options.color == ColorMode::Auto,
            options.env.wf(),
            options.env@ == Seq::<(Seq<char>, Seq<char>)>::empty(),
            options.inherit_env,
    {
        Options {
            cols: 80,
            rows: 24,
            cell_width: 9,
            cell_height: 18,
            settle: 250_000_000,
            deadline: 5_000_000_000,
            input: Vec::new(),
            initial_delay: 0,
            wait_for: None,
            max_bytes: 16 * 1024 * 1024,
            opentui_host: false,
            color: ColorMode::Auto,
            env: Variables::new(),
            inherit_env: true,
        }
    }
}

impl Clone for Options {
    fn clone(&self) -> (copy: Self)
        ensures
            copy.input@ == self.input@,
            copy.wait_for is Some <==> self.wait_for is Some,
            copy.wait_for is Some ==> copy.wait_for->0@ == self.wait_for->0@,
            copy.env@ == self.env@,
            copy == (Options {
                input: copy.input,
                wait_for: copy.wait_for,
                env: copy.env,
                ..*self
            }),
    {
        Options {
            cols: self.cols,
            rows: self.rows,
            cell_width: self.cell_width,
            cell_height: self.cell_height,
            settle: self.settle,
            deadline: self.deadline,
            input: vstd::slice::slice_to_vec(self.input.as_slice()),
            initial_delay: self.initial_delay,
            wait_for: match &self.wait_for {
                Some(wait_for) => Some(wait_for.clone()),
                None => None,
            },
            max_bytes: self.max_bytes,
            opentui_host: self.opentui_host,
            color: self.color,
            env: self.env.clone(),
            inherit_env: self.inherit_env,
        }
    }
}

/// A visible terminal frame together with its source ANSI/VT stream.
#[derive(Debug)]
pub struct Shot {
    pub frame: Frame,
    pub ansi: Vec<u8>,
}

/// Why a shot could not be taken.
#[derive(Debug)]
pub enum ShotError {
    /// A terminal has at least one cell.
    ZeroGeometry,
    /// More bytes were given than may be replayed.
    InputTooLong { max_bytes: usize },
    /// The application wrote more bytes than may be kept.
    OutputTooLong { max_bytes: usize },
    /// There is no command to launch.
    NoCommand,
    /// The text that was waited for never showed.
    PatternMissing { pattern: String },
}

impl ShotError {
    /// What the error says.
    pub open spec fn says(&self) -> Seq<char> {
        match *self {
            ShotError::ZeroGeometry => "terminal dimensions must be greater than zero"@,
            ShotError::InputTooLong { max_bytes } => "terminal input exceeds --max-bytes ("@
                + text::decimal_text(max_bytes as nat) + ")"@,
            ShotError::OutputTooLong { max_bytes } => "terminal output exceeds --max-bytes ("@
                + text::decimal_text(max_bytes as nat) + ")"@,
            ShotError::NoCommand => "provide a command after --"@,
            ShotError::PatternMissing { pattern } => "visible terminal did not include --wait-for "@
                + text::quoted_text(pattern@) + " before command ended or deadline elapsed"@,
        }
    }

    /// Writes out the error.
    pub fn message(&self) -> (message: String)
        ensures
            message@ == self.says(),
    {
        match self {
            ShotError::ZeroGeometry => "terminal dimensions must be greater than zero".to_owned(),
            ShotError::InputTooLong { max_bytes } => {
                let mut message = "terminal input exceeds --max-bytes (".to_owned();
                message.append(text::decimal(*max_bytes as u64).as_str());
                message.append(")");
                message
            },
            ShotError::OutputTooLong { max_bytes } => {
                let mut message = "terminal output exceeds --max-bytes (".to_owned();
                message.append(text::decimal(*max_bytes as u64).as_str());
                message.append(")");
                message
            },
            ShotError::NoCommand => "provide a command after --".to_owned(),
            ShotError::PatternMissing { pattern } => {
                let mut message = "visible terminal did not include --wait-for ".to_owned();
                message.append(text::quoted(pattern.as_str()).as_str());
                message.append(" before command ended or deadline elapsed");
                message
            },
        }
    }
}

/// Refuses a terminal without cells.
pub fn validate_geometry(rows: u16, cols: u16) -> (result: Result<(), ShotError>)
    ensures
        result is Ok <==> rows != 0 && cols != 0,
        result matches Err(error) ==> error is ZeroGeometry,
{
    if rows == 0 || cols == 0 {
        Err(ShotError::ZeroGeometry)
    } else {
        Ok(())
    }
}

/// A byte stream that may be replayed into a terminal of this size.
#[derive(Debug)]
pub struct AnsiStream {
    pub bytes: Vec<u8>,
    pub rows: u16,
    pub cols: u16,
}

impl AnsiStream {
    /// The shot of the frame that a terminal shows after the whole stream.
    pub fn shot(self, frame: Frame) -> (shot: Shot)
        ensures
            shot.frame == frame,
            shot.ansi == self.bytes,
    {
        Shot { frame, ansi: self.bytes }
    }
}

/// Accepts an ANSI/VT byte stream for replay into a terminal.
pub fn from_ansi(bytes: Vec<u8>, rows: u16, cols: u16, max_bytes: usize) -> (result: Result<
    AnsiStream,
    ShotError,
>)
    ensures
        result is Ok <==> rows != 0 && cols != 0 && bytes@.len() <= max_bytes,
        result matches Ok(stream) ==> stream.bytes == bytes && stream.rows == rows && stream.cols
            == cols,
        result matches Err(error) ==> error == if rows == 0 || cols == 0 {
            ShotError::ZeroGeometry
        } else {
            ShotError::InputTooLong { max_bytes }
        },
{
    match validate_geometry(rows, cols) {
        Ok(()) => {},
        Err(error) => {
            return Err(error);
        },
    }
    if bytes.len() > max_bytes {
        return Err(ShotError::InputTooLong { max_bytes });
    }
    Ok(AnsiStream { bytes, rows, cols })
}

/// Keeps terminal output up to a limit. Output that does not fit is refused as a whole.
pub fn retain(ansi: &mut Vec<u8>, bytes: &[u8], max_bytes: usize) -> (result: Result<(), ShotError>)
    ensures
        result is Ok <==> old(ansi)@.len() + bytes@.len() <= max_bytes,
        result is Ok ==> final(ansi)@ == old(ansi)@ + bytes@,
        result matches Err(error) ==> final(ansi)@ == old(ansi)@ && error
            == (ShotError::OutputTooLong { max_bytes }),
{
    if ansi.len() > max_bytes || bytes.len() > max_bytes - ansi.len() {
        return Err(ShotError::OutputTooLong { max_bytes });
    }
    text::append_bytes(ansi, bytes);
    Ok(())
}

/// Output in which every line feed follows a carriage return.
pub open spec fn normalized(bytes: Seq<u8>, previous_was_cr: bool) -> Seq<u8>
    decreases bytes.len(),
{
    if bytes.len() == 0 {
        Seq::empty()
    } else {
        let before = normalized(bytes.drop_last(), previous_was_cr);
        let follows_cr = if bytes.len() == 1 {
            previous_was_cr
        } else {
            bytes[bytes.len() - 2] == 0x0d
        };
        if bytes.last() == 0x0a && !follows_cr {
            before.push(0x0d).push(0x0a)
        } else {
            before.push(bytes.last())
        }
    }
}

/// Whether the output ends in a carriage return.
pub open spec fn ends_in_cr(bytes: Seq<u8>, previous_was_cr: bool) -> bool {
    if bytes.len() == 0 {
        previous_was_cr
    } else {
        bytes.last() == 0x0d
    }
}

/// Gives line feeds of piped output the carriage return that a terminal would give them.
#[derive(Clone, Copy, Debug, PartialEq, Eq, Structural)]
pub struct LinefeedNormalizer {
    pub previous_was_cr: bool,
}

impl Default for LinefeedNormalizer {
    fn default() -> (normalizer: Self)
        ensures
            !normalizer.previous_was_cr,
    {
        LinefeedNormalizer { previous_was_cr: false }
    }
}

impl LinefeedNormalizer {
    /// Normalizes the next chunk of output.
    pub fn normalize(&mut self, bytes: &[u8]) -> (output: Vec<u8>)
        ensures
            output@ == normalized(bytes@, old(self).previous_was_cr),
            final(self).previous_was_cr == ends_in_cr(bytes@, old(self).previous_was_cr),
    {
        let mut output: Vec<u8> = Vec::new();
        let mut index: usize = 0;
        while index < bytes.len()
            invariant
                index <= bytes@.len(),
                output@ == normalized(bytes@.take(index as int), old(self).previous_was_cr),
                self.previous_was_cr == ends_in_cr(
                    bytes@.take(index as int),
                    old(self).previous_was_cr,
                ),
            decreases bytes@.len() - index,
        {
            let byte: u8 = bytes[index];
            assert(bytes@.take(index + 1).drop_last() =~= bytes@.take(index as int));
            if byte == 0x0a && !self.previous_was_cr {
                output.push(0x0d);
            }
            output.push(byte);
            self.previous_was_cr = byte == 0x0d;
            index += 1;
        }
        assert(bytes@.take(index as int) =~= bytes@);
        output
    }
}

/// How output is cut into chunks does not matter to its normalization.
pub proof fn lemma_normalize_chunks(first: Seq<u8>, second: Seq<u8>, previous_was_cr: bool)
    ensures
        normalized(first + second, previous_was_cr) == normalized(first, previous_was_cr)
            + normalized(second, ends_in_cr(first, previous_was_cr)),
        ends_in_cr(first + second, previous_was_cr) == ends_in_cr(
            second,
            ends_in_cr(first, previous_was_cr),
        ),
    decreases second.len(),
{
    let all = first + second;
    if second.len() == 0 {
        assert(all =~= first);
        assert(normalized(first, previous_was_cr) + normalized(
            second,
            ends_in_cr(first, previous_was_cr),
        ) =~= normalized(first, previous_was_cr));
    } else {
        assert(all.drop_last() =~= first + second.drop_last());
        lemma_normalize_chunks(first, second.drop_last(), previous_was_cr);
        assert(normalized(all, previous_was_cr) =~= normalized(first, previous_was_cr)
            + normalized(second, ends_in_cr(first, previous_was_cr)));
    }
}

/// After normalization every line feed follows a carriage return.
pub proof fn lemma_no_bare_line_feed(bytes: Seq<u8>, previous_was_cr: bool, index: int)
    requires
        0 <= index < normalized(bytes, previous_was_cr).len(),
        normalized(bytes, previous_was_cr)[index] == 0x0a,
    ensures
        if index == 0 {
            previous_was_cr
        } else {
            normalized(bytes, previous_was_cr)[index - 1] == 0x0d
        },
    decreases bytes.len(),
{
    let before = normalized(bytes.drop_last(), previous_was_cr);
    lemma_normalized_last(bytes.drop_last(), previous_was_cr);
    if index < before.len() {
        lemma_no_bare_line_feed(bytes.drop_last(), previous_was_cr, index);
    }
}

proof fn lemma_normalized_last(bytes: Seq<u8>, previous_was_cr: bool)
    ensures
        bytes.len() == 0 ==> normalized(bytes, previous_was_cr).len() == 0,
        bytes.len() > 0 ==> normalized(bytes, previous_was_cr).len() > 0 && normalized(
            bytes,
            previous_was_cr,
        ).last() == bytes.last(),
{
}

/// The changes that a color policy makes.
pub open spec fn color_changes(color: ColorMode) -> Seq<environment::EnvChange> {
    match color {
        ColorMode::Auto => Seq::empty(),
        ColorMode::Always => seq![
            environment::EnvChange::Remove { key: "NO_COLOR"@ },
            environment::set_to("FORCE_COLOR"@, "1"@),
            environment::set_to("CLICOLOR"@, "1"@),
            environment::set_to("CLICOLOR_FORCE"@, "1"@),
        ],
        ColorMode::Never => seq![
            environment::set_to("NO_COLOR"@, "1"@),
            environment::set_to("FORCE_COLOR"@, "0"@),
            environment::set_to("CLICOLOR"@, "0"@),
            environment::set_to("CLICOLOR_FORCE"@, "0"@),
        ],
    }
}

/// The changes made before the color policy.
pub open spec fn terminal_changes(inherit_env: bool) -> Seq<environment::EnvChange> {
    (if inherit_env {
        Seq::empty()
    } else {
        seq![environment::EnvChange::Clear]
    }).push(environment::set_to("TERM"@, "xterm-256color"@)).push(
        environment::set_to("COLORTERM"@, "truecolor"@),
    )
}

/// Every change to the environment of an observed application, in order.
pub open spec fn environment_changes(options: Options) -> Seq<environment::EnvChange> {
    terminal_changes(options.inherit_env) + color_changes(options.color) + environment::set_all(
        options.env@,
    )
}

fn push_color_changes(actions: &mut Vec<EnvAction>, color: ColorMode)
    ensures
        environment::changes(final(actions)@) == environment::changes(old(actions)@)
            + color_changes(color),
{
    let ghost before = environment::changes(actions@);
    match color {
        ColorMode::Auto => {},
        ColorMode::Always => {
            environment::push_remove(actions, "NO_COLOR");
            environment::push_set(actions, "FORCE_COLOR", "1");
            environment::push_set(actions, "CLICOLOR", "1");
            environment::push_set(actions, "CLICOLOR_FORCE", "1");
        },
        ColorMode::Never => {
            environment::push_set(actions, "NO_COLOR", "1");
            environment::push_set(actions, "FORCE_COLOR", "0");
            environment::push_set(actions, "CLICOLOR", "0");
            environment::push_set(actions, "CLICOLOR_FORCE", "0");
        },
    }
    assert(environment::changes(actions@) =~= before + color_changes(color));
}

/// The environment changes for an application in a pseudo-terminal.
pub fn configure_pty_environment(options: &Options) -> (actions: Vec<EnvAction>)
    ensures
        environment::changes(actions@) == environment_changes(*options),
{
    let mut actions: Vec<EnvAction> = Vec::new();
    if !options.inherit_env {
        actions.push(EnvAction::Clear);
    }
    environment::push_set(&mut actions, "TERM", "xterm-256color");
    environment::push_set(&mut actions, "COLORTERM", "truecolor");
    assert(environment::changes(actions@) =~= terminal_changes(options.inherit_env));
    push_color_changes(&mut actions, options.color);
    environment::push_variables(&mut actions, &options.env);
    actions
}

/// The environment changes for an application whose output is piped. They are the same as for a
/// pseudo-terminal.
pub fn configure_process_environment(options: &Options) -> (actions: Vec<EnvAction>)
    ensures
        environment::changes(actions@) == environment_changes(*options),
{
    configure_pty_environment(options)
}

/// The variable in which an observed application finds the socket of its semantic provider. Only
/// an application that is answered as its framework expects gets one. It is set after every other
/// change to the environment.
pub fn provider_variable(options: &Options) -> (key: Option<&'static str>)
    ensures
        key is Some <==> options.opentui_host,
        key matches Some(key) ==> key@ == semantic::SOCKET_ENV@,
{
    if options.opentui_host {
        Some(semantic::SOCKET_ENV)
    } else {
        None
    }
}

/// How long an observed application is given to end, in nanoseconds.
pub const TEARDOWN_LIMIT: u128 = 1_000_000_000;

/// How long to rest between two looks at an application that ends, in nanoseconds.
pub const TEARDOWN_REST: u128 = 10_000_000;

/// The end of an observed application: it was killed, and is looked at until it has exited or time
/// is up.
#[derive(Clone, Copy, Debug, PartialEq, Eq, Structural)]
pub struct Teardown {
    pub deadline: u128,
}

/// What happened to an application that ends.
#[derive(Clone, Copy, Debug, PartialEq, Eq, Structural)]
pub enum TeardownEvent {
    Killed,
    Exited,
    Running,
    Rested,
}

/// What to do next with an application that ends.
#[derive(Clone, Copy, Debug, PartialEq, Eq, Structural)]
pub enum TeardownNext {
    /// Look whether it has exited.
    Look,
    /// Rest for so many nanoseconds.
    Rest(u128),
    Done,
}

impl Teardown {
    /// What to do after `event`.
    pub open spec fn after(self, event: TeardownEvent, now: u128) -> TeardownNext {
        match event {
            TeardownEvent::Exited => TeardownNext::Done,
            TeardownEvent::Running => TeardownNext::Rest(TEARDOWN_REST),
            TeardownEvent::Killed | TeardownEvent::Rested => if now < self.deadline {
                TeardownNext::Look
            } else {
                TeardownNext::Done
            },
        }
    }

    /// Begins when the application was killed.
    pub fn begin(now: u128) -> (teardown: Teardown)
        ensures
            teardown.deadline == now.saturating_add(TEARDOWN_LIMIT),
    {
        Teardown { deadline: now.saturating_add(TEARDOWN_LIMIT) }
    }

    /// Says what to do after `event`.
    pub fn step(&self, event: TeardownEvent, now: u128) -> (next: TeardownNext)
        ensures
            next == self.after(event, now),
    {
        match event {
            TeardownEvent::Exited => TeardownNext::Done,
            TeardownEvent::Running => TeardownNext::Rest(TEARDOWN_REST),
            TeardownEvent::Killed | TeardownEvent::Rested => {
                if now < self.deadline {
                    TeardownNext::Look
                } else {
                    TeardownNext::Done
                }
            },
        }
    }
}

/// An explicitly set variable has its value, whatever the color policy and the inherited
/// environment say.
pub proof fn lemma_explicit_variable_wins(
    options: Options,
    key: Seq<char>,
    inherited: Option<Seq<char>>,
)
    requires
        environment::value_in(options.env@, key) is Some,
    ensures
        environment::value_after(environment_changes(options), key, inherited)
            == environment::value_in(options.env@, key),
{
    environment::lemma_set_all(
        terminal_changes(options.inherit_env) + color_changes(options.color),
        options.env@,
        key,
        inherited,
    );
}

/// Colors are off for an application launched without them: unless a variable is set explicitly,
/// `NO_COLOR` is set and `FORCE_COLOR` is zero.
pub proof fn lemma_never_colors(options: Options, inherited: Option<Seq<char>>)
    requires
        options.color == ColorMode::Never,
        environment::value_in(options.env@, "NO_COLOR"@) is None,
        environment::value_in(options.env@, "FORCE_COLOR"@) is None,
    ensures
        environment::value_after(environment_changes(options), "NO_COLOR"@, inherited) == Some(
            "1"@,
        ),
        environment::value_after(environment_changes(options), "FORCE_COLOR"@, inherited) == Some(
            "0"@,
        ),
{
    reveal_strlit("NO_COLOR");
    reveal_strlit("FORCE_COLOR");
    reveal_strlit("CLICOLOR");
    reveal_strlit("CLICOLOR_FORCE");
    let before = terminal_changes(options.inherit_env) + color_changes(options.color);
    environment::lemma_set_all(before, options.env@, "NO_COLOR"@, inherited);
    environment::lemma_set_all(before, options.env@, "FORCE_COLOR"@, inherited);
    reveal_with_fuel(environment::value_after, 5);
    let fourth = before;
    let third = fourth.drop_last();
    let second = third.drop_last();
    let first = second.drop_last();
    assert(fourth.last() == environment::set_to("CLICOLOR_FORCE"@, "0"@));
    assert(third.last() == environment::set_to("CLICOLOR"@, "0"@));
    assert(second.last() == environment::set_to("FORCE_COLOR"@, "0"@));
    assert(first.last() == environment::set_to("NO_COLOR"@, "1"@));
    assert("CLICOLOR_FORCE"@[0] != "NO_COLOR"@[0] && "CLICOLOR"@[0] != "NO_COLOR"@[0]);
    assert("FORCE_COLOR"@[0] != "NO_COLOR"@[0]);
    assert("CLICOLOR_FORCE"@[0] != "FORCE_COLOR"@[0] && "CLICOLOR"@[0] != "FORCE_COLOR"@[0]);
}

/// A question that an application asks about a terminal color.
#[derive(Clone, Copy, Debug, PartialEq, Eq, Structural)]
pub enum ColorQuery {
    Foreground,
    Background,
    Palette(u8),
}

/// The palette questions in `fields` from `index` on, up to the first entry that is no question.
pub open spec fn palette_queries(fields: Seq<Seq<char>>, index: int) -> Seq<ColorQuery>
    decreases fields.len() - index,
{
    if index < 0 || index + 1 >= fields.len() || fields[index + 1] != "?"@ {
        Seq::empty()
    } else {
        let rest = palette_queries(fields, index + 2);
        match text::unsigned_value(fields[index]) {
            Some(slot) => if slot <= 255 {
                seq![ColorQuery::Palette(slot as u8)] + rest
            } else {
                rest
            },
            None => rest,
        }
    }
}

/// The questions in an operating system command with this content.
pub open spec fn content_queries(content: Seq<u8>) -> Seq<ColorQuery> {
    match terminal_theme::command_fields(content) {
        Some(fields) => if fields[0] == "10"@ && fields.len() > 1 && fields[1] == "?"@ {
            seq![ColorQuery::Foreground]
        } else if fields[0] == "11"@ && fields.len() > 1 && fields[1] == "?"@ {
            seq![ColorQuery::Background]
        } else if fields[0] == "4"@ {
            palette_queries(fields, 1)
        } else {
            Seq::empty()
        },
        None => Seq::empty(),
    }
}

/// The questions in output from `index` on, and the unfinished command at its end.
pub open spec fn scan_queries(bytes: Seq<u8>, index: int) -> (Seq<ColorQuery>, Seq<u8>)
    decreases bytes.len() - index,
{
    if index < 0 || index >= bytes.len() {
        (Seq::empty(), Seq::empty())
    } else {
        let prefix = terminal_theme::command_prefix(bytes, index);
        if prefix == 0 {
            scan_queries(bytes, index + 1)
        } else {
            match terminal_theme::string_end(bytes, index + prefix) {
                None => (Seq::empty(), bytes.subrange(index, bytes.len() as int)),
                Some((end, terminator)) => if end + terminator <= index || end + terminator
                    > bytes.len() {
                    (Seq::empty(), Seq::empty())
                } else {
                    let (queries, rest) = scan_queries(bytes, end + terminator);
                    (content_queries(bytes.subrange(index + prefix, end)) + queries, rest)
                },
            }
        }
    }
}

/// Finds the end of an operating system command whose content starts at `start`.
pub fn color_osc_end(bytes: &[u8], start: usize) -> (end: Option<(usize, usize)>)
    ensures
        (match end {
            Some((end, terminator)) => Some((end as int, terminator as int)),
            None => None,
        }) == terminal_theme::string_end(bytes@, start as int),
{
    terminal_theme::osc_end(bytes, start)
}

fn read_queries(content: &[u8], queries: &mut Vec<ColorQuery>)
    ensures
        final(queries)@ == old(queries)@ + content_queries(content@),
{
    let ghost before = queries@;
    let fields = match terminal_theme::read_fields(content) {
        Some(fields) => fields,
        None => {
            assert(queries@ =~= before + content_queries(content@));
            return ;
        },
    };
    let ghost views = text::field_views(fields@);
    assert(views[0] == fields@[0]@);
    let first = fields[0].as_slice();
    let asks = if fields.len() > 1 {
        assert(views[1] == fields@[1]@);
        text::spells(fields[1].as_slice(), "?")
    } else {
        false
    };
    if text::spells(first, "10") && asks {
        queries.push(ColorQuery::Foreground);
        assert(queries@ =~= before + content_queries(content@));
    } else if text::spells(first, "11") && asks {
        queries.push(ColorQuery::Background);
        assert(queries@ =~= before + content_queries(content@));
    } else if text::spells(first, "4") {
        proof {
            reveal_strlit("10");
            reveal_strlit("11");
            reveal_strlit("4");
            assert("10"@.len() != "4"@.len());
            assert("11"@.len() != "4"@.len());
        }
        let mut index: usize = 1;
        while fields.len() - index > 1
            invariant
                1 <= index <= fields@.len(),
                views == text::field_views(fields@),
                queries@ + palette_queries(views, index as int) == before + palette_queries(
                    views,
                    1,
                ),
            ensures
                queries@ == before + palette_queries(views, 1),
            decreases fields@.len() - index,
        {
            assert(views[index as int] == fields@[index as int]@);
            assert(views[index + 1] == fields@[index + 1]@);
            if !text::spells(fields[index + 1].as_slice(), "?") {
                assert(queries@ + palette_queries(views, index as int) =~= queries@);
                break;
            }
            let ghost held = queries@;
            if let Some(slot) = text::parse_unsigned(fields[index].as_slice(), 255) {
                queries.push(ColorQuery::Palette(slot as u8));
                assert(queries@ + palette_queries(views, index + 2) =~= held + palette_queries(
                    views,
                    index as int,
                ));
            }
            index += 2;
            assert(fields@.len() - index <= 1 ==> queries@ + palette_queries(views, index as int)
                =~= queries@);
        }
    } else {
        assert(queries@ =~= before + content_queries(content@));
    }
}

/// Takes the color questions out of the output in `probe`. What remains in it is the unfinished
/// command at its end.
pub fn take_color_queries(probe: &mut Vec<u8>) -> (queries: Vec<ColorQuery>)
    ensures
        (queries@, final(probe)@) == scan_queries(old(probe)@, 0),
{
    let mut queries: Vec<ColorQuery> = Vec::new();
    let mut index: usize = 0;
    let ghost whole = probe@;
    assert(queries@ + scan_queries(whole, 0).0 =~= scan_queries(whole, 0).0);
    while index < probe.len()
        invariant
            index <= probe@.len(),
            probe@ == whole,
            whole == old(probe)@,
            queries@ + scan_queries(whole, index as int).0 == scan_queries(whole, 0).0,
            scan_queries(whole, index as int).1 == scan_queries(whole, 0).1,
        decreases probe@.len() - index,
    {
        let byte: u8 = probe[index];
        let prefix: usize = if byte == 0x1b && probe.len() - index > 1 && probe[index + 1] == 0x5d {
            2
        } else if byte == 0x9d {
            1
        } else {
            0
        };
        if prefix == 0 {
            index += 1;
            continue ;
        }
        let start: usize = index + prefix;
        proof {
            terminal_theme::lemma_string_end_first(whole, start as int);
        }
        match color_osc_end(probe.as_slice(), start) {
            None => {
                let rest = vstd::slice::slice_to_vec(
                    vstd::slice::slice_subrange(probe.as_slice(), index, probe.len()),
                );
                *probe = rest;
                assert(queries@ + scan_queries(whole, index as int).0 =~= queries@);
                return queries;
            },
            Some((end, terminator)) => {
                let ghost held = queries@;
                let content = vstd::slice::slice_subrange(probe.as_slice(), start, end);
                read_queries(content, &mut queries);
                let ghost after = scan_queries(whole, end + terminator).0;
                assert(held + (content_queries(content@) + after) =~= queries@ + after);
                index = end + terminator;
            },
        }
    }
    assert(queries@ + scan_queries(whole, index as int).0 =~= queries@);
    probe.clear();
    queries
}

proof fn lemma_string_end_shift(bytes: Seq<u8>, skipped: int, start: int)
    requires
        0 <= skipped <= bytes.len(),
        0 <= start,
    ensures
        terminal_theme::string_end(bytes, skipped + start) == match terminal_theme::string_end(
            bytes.subrange(skipped, bytes.len() as int),
            start,
        ) {
            Some((end, terminator)) => Some((end + skipped, terminator)),
            None => None,
        },
    decreases bytes.len() - skipped - start,
{
    let tail = bytes.subrange(skipped, bytes.len() as int);
    if start < tail.len() {
        assert(terminal_theme::terminator_len(bytes, skipped + start)
            == terminal_theme::terminator_len(tail, start));
        if terminal_theme::terminator_len(tail, start) == 0 {
            lemma_string_end_shift(bytes, skipped, start + 1);
        }
    }
}

proof fn lemma_scan_shift(bytes: Seq<u8>, skipped: int, index: int)
    requires
        0 <= skipped <= bytes.len(),
        0 <= index,
    ensures
        scan_queries(bytes, skipped + index) == scan_queries(
            bytes.subrange(skipped, bytes.len() as int),
            index,
        ),
    decreases bytes.len() - skipped - index,
{
    let tail = bytes.subrange(skipped, bytes.len() as int);
    if index < tail.len() {
        let prefix = terminal_theme::command_prefix(tail, index);
        assert(terminal_theme::command_prefix(bytes, skipped + index) == prefix);
        if prefix == 0 {
            lemma_scan_shift(bytes, skipped, index + 1);
        } else {
            lemma_string_end_shift(bytes, skipped, index + prefix);
            terminal_theme::lemma_string_end_first(tail, index + prefix);
            match terminal_theme::string_end(tail, index + prefix) {
                None => {
                    assert(bytes.subrange(skipped + index, bytes.len() as int) =~= tail.subrange(
                        index,
                        tail.len() as int,
                    ));
                },
                Some((end, terminator)) => {
                    lemma_scan_shift(bytes, skipped, end + terminator);
                    assert(bytes.subrange(skipped + index + prefix, skipped + end)
                        =~= tail.subrange(index + prefix, end));
                },
            }
        }
    }
}

proof fn lemma_string_end_stays(first: Seq<u8>, second: Seq<u8>, start: int)
    requires
        0 <= start,
        terminal_theme::string_end(first, start) is Some,
    ensures
        terminal_theme::string_end(first + second, start) == terminal_theme::string_end(
            first,
            start,
        ),
    decreases first.len() - start,
{
    let all = first + second;
    if terminal_theme::terminator_len(first, start) == 0 {
        lemma_string_end_stays(first, second, start + 1);
        assert(start + 1 < first.len());
        assert(terminal_theme::terminator_len(all, start) == 0);
    } else {
        assert(terminal_theme::terminator_len(all, start) == terminal_theme::terminator_len(
            first,
            start,
        ));
    }
}

proof fn lemma_scan_split(first: Seq<u8>, second: Seq<u8>, index: int)
    requires
        0 <= index <= first.len(),
        first.len() > 0 ==> first.last() != 0x1b,
    ensures
        ({
            let (found, rest) = scan_queries(first, index);
            let (more, left) = scan_queries(rest + second, 0);
            scan_queries(first + second, index) == (found + more, left)
        }),
    decreases first.len() - index,
{
    let all = first + second;
    let (found, rest) = scan_queries(first, index);
    let (more, left) = scan_queries(rest + second, 0);
    if index == first.len() {
        assert(rest + second =~= second);
        lemma_scan_shift(all, index, 0);
        assert(all.subrange(index, all.len() as int) =~= second);
        assert(found + more =~= more);
    } else {
        let prefix = terminal_theme::command_prefix(first, index);
        assert(terminal_theme::command_prefix(all, index) == prefix);
        if prefix == 0 {
            lemma_scan_split(first, second, index + 1);
        } else {
            terminal_theme::lemma_string_end_first(first, index + prefix);
            match terminal_theme::string_end(first, index + prefix) {
                None => {
                    lemma_scan_shift(all, index, 0);
                    assert(all.subrange(index, all.len() as int) =~= rest + second);
                    assert(found + more =~= more);
                },
                Some((end, terminator)) => {
                    lemma_string_end_stays(first, second, index + prefix);
                    lemma_scan_split(first, second, end + terminator);
                    assert(all.subrange(index + prefix, end) =~= first.subrange(
                        index + prefix,
                        end,
                    ));
                    let after = scan_queries(first, end + terminator).0;
                    let content = content_queries(first.subrange(index + prefix, end));
                    assert(content + (after + more) =~= (content + after) + more);
                },
            }
        }
    }
}

/// Cutting output in two loses no color question, unless the cut falls behind an escape byte: what
/// remains of the first part is completed by the second.
pub proof fn lemma_queries_survive_split(first: Seq<u8>, second: Seq<u8>)
    requires
        first.len() > 0 ==> first.last() != 0x1b,
    ensures
        ({
            let (found, rest) = scan_queries(first, 0);
            let (more, left) = scan_queries(rest + second, 0);
            scan_queries(first + second, 0) == (found + more, left)
        }),
{
    lemma_scan_split(first, second, 0);
}

/// A color as a terminal answers it, each component doubled to sixteen bits.
pub open spec fn color_answer(selector: Seq<char>, color: Color) -> Seq<char> {
    "\x1b]"@ + selector + ";rgb:"@ + frame::hex_pair(color.r) + frame::hex_pair(color.r) + "/"@
        + frame::hex_pair(color.g) + frame::hex_pair(color.g) + "/"@ + frame::hex_pair(color.b)
        + frame::hex_pair(color.b) + "\x1b\\"@
}

/// Appends a color as a terminal answers it.
pub fn append_color_response(response: &mut Vec<u8>, selector: &str, color: Color)
    ensures
        final(response)@ == old(response)@ + vstd::utf8::encode_utf8(
            color_answer(selector@, color),
        ),
{
    let mut answer = String::new();
    answer.append("\x1b]");
    answer.append(selector);
    answer.append(";rgb:");
    frame::push_hex_pair(&mut answer, color.r);
    frame::push_hex_pair(&mut answer, color.r);
    answer.append("/");
    frame::push_hex_pair(&mut answer, color.g);
    frame::push_hex_pair(&mut answer, color.g);
    answer.append("/");
    frame::push_hex_pair(&mut answer, color.b);
    frame::push_hex_pair(&mut answer, color.b);
    answer.append("\x1b\\");
    assert(answer@ =~= color_answer(selector@, color));
    text::append_text(response, answer.as_str());
}

/// What a terminal with `theme` answers to a color question.
pub open spec fn query_answer(query: ColorQuery, theme: terminal_theme::ThemeView) -> Seq<char> {
    match query {
        ColorQuery::Foreground => color_answer("10"@, theme.foreground),
        ColorQuery::Background => color_answer("11"@, theme.background),
        ColorQuery::Palette(index) => color_answer(
            "4;"@ + text::decimal_text(index as nat),
            if index < 16 {
                theme.ansi[index as int]
            } else {
                frame::palette_color(index as int)
            },
        ),
    }
}

/// The answers to color questions, in the order of the questions.
pub open spec fn query_answers(
    queries: Seq<ColorQuery>,
    theme: terminal_theme::ThemeView,
) -> Seq<u8>
    decreases queries.len(),
{
    if queries.len() == 0 {
        Seq::empty()
    } else {
        query_answers(queries.drop_last(), theme) + vstd::utf8::encode_utf8(
            query_answer(queries.last(), theme),
        )
    }
}

/// The text that stands for a color in an answer.
pub open spec fn color_text(color: Color) -> Seq<char> {
    "rgb:"@ + frame::hex_pair(color.r) + frame::hex_pair(color.r) + "/"@ + frame::hex_pair(color.g)
        + frame::hex_pair(color.g) + "/"@ + frame::hex_pair(color.b) + frame::hex_pair(color.b)
}

/// What a terminal that answered `queries` has told of its colors.
pub open spec fn learned(
    queries: Seq<ColorQuery>,
    theme: terminal_theme::ThemeView,
) -> terminal_theme::RepliesView
    decreases queries.len(),
{
    if queries.len() == 0 {
        terminal_theme::no_replies()
    } else {
        let before = learned(queries.drop_last(), theme);
        match queries.last() {
            ColorQuery::Foreground => terminal_theme::RepliesView {
                foreground: Some(theme.foreground),
                ..before
            },
            ColorQuery::Background => terminal_theme::RepliesView {
                background: Some(theme.background),
                ..before
            },
            ColorQuery::Palette(index) => terminal_theme::RepliesView {
                ansi: before.ansi.update(index as int, Some(theme.ansi[index as int])),
                ..before
            },
        }
    }
}

/// The color that a question asks for.
pub open spec fn asked_color(query: ColorQuery, theme: terminal_theme::ThemeView) -> Color {
    match query {
        ColorQuery::Foreground => theme.foreground,
        ColorQuery::Background => theme.background,
        ColorQuery::Palette(index) => theme.ansi[index as int],
    }
}

/// Whether a question asks for a color of a theme.
pub open spec fn asks_theme(query: ColorQuery) -> bool {
    query matches ColorQuery::Palette(index) ==> index < 16
}

/// How a question selects its color.
spec fn selector(query: ColorQuery) -> Seq<char> {
    match query {
        ColorQuery::Foreground => "10"@,
        ColorQuery::Background => "11"@,
        ColorQuery::Palette(index) => "4;"@ + text::decimal_text(index as nat),
    }
}

/// What stands between the introducer and the terminator of an answer.
spec fn answer_content(query: ColorQuery, theme: terminal_theme::ThemeView) -> Seq<char> {
    selector(query).push(';') + color_text(asked_color(query, theme))
}

/// Whether a character may stand in a field of an answer.
spec fn field_char(ch: char) -> bool {
    ' ' <= ch <= '~' && ch != ';'
}

proof fn lemma_hex_chars(value: u8)
    ensures
        frame::hex_pair(value).len() == 2,
        field_char(frame::hex_pair(value)[0]),
        field_char(frame::hex_pair(value)[1]),
{
}

proof fn lemma_color_text(color: Color)
    ensures
        color_text(color).len() == 18,
        forall|i: int| 0 <= i < 18 ==> field_char(#[trigger] color_text(color)[i]),
{
    reveal_strlit("rgb:");
    reveal_strlit("/");
    lemma_hex_chars(color.r);
    lemma_hex_chars(color.g);
    lemma_hex_chars(color.b);
}

proof fn lemma_selector(query: ColorQuery)
    requires
        asks_theme(query),
    ensures
        0 < selector(query).len() <= 4,
        forall|i: int|
            0 <= i < selector(query).len() ==> ' ' <= #[trigger] selector(query)[i] <= '~',
{
    reveal_strlit("10");
    reveal_strlit("11");
    reveal_strlit("4;");
    if let ColorQuery::Palette(index) = query {
        lemma_slot_text(index as nat);
    }
}

proof fn lemma_slot_text(slot: nat)
    requires
        slot < 16,
    ensures
        0 < text::decimal_text(slot).len() <= 2,
        forall|i: int|
            0 <= i < text::decimal_text(slot).len() ==> field_char(
                #[trigger] text::decimal_text(slot)[i],
            ),
        text::unsigned_value(text::decimal_text(slot)) == Some(slot),
{
    reveal_with_fuel(text::decimal_text, 3);
    text::lemma_decimal_round_trip(slot);
}

proof fn lemma_answer_is_framed(query: ColorQuery, theme: terminal_theme::ThemeView)
    requires
        asks_theme(query),
    ensures
        vstd::utf8::encode_utf8(query_answer(query, theme)) == terminal_theme::framed(
            vstd::utf8::encode_utf8(answer_content(query, theme)),
        ),
        terminal_theme::unbroken(vstd::utf8::encode_utf8(answer_content(query, theme))),
        vstd::utf8::encode_utf8(query_answer(query, theme)).len() <= 27,
{
    let content = answer_content(query, theme);
    lemma_selector(query);
    lemma_color_text(asked_color(query, theme));
    assert forall|i: int| 0 <= i < content.len() implies ' ' <= #[trigger] content[i] <= '~' by {
        if i < selector(query).len() {
            assert(content[i] == selector(query)[i]);
        } else if i > selector(query).len() {
            assert(content[i] == color_text(asked_color(query, theme))[i - selector(query).len() - 1]);
        }
    }
    assert(vstd::utf8::is_ascii_chars(content));
    vstd::utf8::is_ascii_chars_encode_utf8(content);
    reveal_strlit("\x1b]");
    reveal_strlit("\x1b\\");
    reveal_strlit(";rgb:");
    reveal_strlit("rgb:");
    vstd::utf8::is_ascii_chars_encode_utf8("\x1b]"@);
    vstd::utf8::is_ascii_chars_encode_utf8("\x1b\\"@);
    assert(vstd::utf8::encode_utf8("\x1b]"@) =~= seq![0x1bu8, 0x5du8]);
    assert(vstd::utf8::encode_utf8("\x1b\\"@) =~= seq![0x1bu8, 0x5cu8]);
    assert(query_answer(query, theme) =~= ("\x1b]"@ + content) + "\x1b\\"@);
    text::lemma_encode_concat("\x1b]"@ + content, "\x1b\\"@);
    text::lemma_encode_concat("\x1b]"@, content);
    assert forall|i: int|
        0 <= i < vstd::utf8::encode_utf8(content).len() implies (#[trigger] vstd::utf8::encode_utf8(
        content,
    )[i]) != 0x07 && vstd::utf8::encode_utf8(content)[i] != 0x9c && vstd::utf8::encode_utf8(
        content,
    )[i] != 0x1b by {
        assert(content[i] as u8 == vstd::utf8::encode_utf8(content)[i]);
    }
}

proof fn lemma_answer_is_understood(
    query: ColorQuery,
    theme: terminal_theme::ThemeView,
    table: Seq<(Seq<char>, Color)>,
    replies: terminal_theme::RepliesView,
)
    requires
        asks_theme(query),
        terminal_theme::color_of(table, color_text(asked_color(query, theme))) == Some(
            asked_color(query, theme),
        ),
    ensures
        terminal_theme::content_replies(
            vstd::utf8::encode_utf8(answer_content(query, theme)),
            table,
            replies,
        ) == (
            match query {
                ColorQuery::Foreground => terminal_theme::RepliesView {
                    foreground: Some(theme.foreground),
                    ..replies
                },
                ColorQuery::Background => terminal_theme::RepliesView {
                    background: Some(theme.background),
                    ..replies
                },
                ColorQuery::Palette(index) => terminal_theme::RepliesView {
                    ansi: replies.ansi.update(index as int, Some(theme.ansi[index as int])),
                    ..replies
                },
            },
            true,
        ),
{
    let content = answer_content(query, theme);
    let color = color_text(asked_color(query, theme));
    vstd::utf8::encode_utf8_valid_utf8(content);
    vstd::utf8::encode_utf8_decode_utf8(content);
    lemma_color_text(asked_color(query, theme));
    text::lemma_split_one(color, ';');
    reveal_strlit("10");
    reveal_strlit("11");
    reveal_strlit("4");
    reveal_strlit("4;");
    match query {
        ColorQuery::Foreground => {
            text::lemma_split_first("10"@, ';', color);
            assert(text::split(content, ';') =~= seq!["10"@, color]);
        },
        ColorQuery::Background => {
            text::lemma_split_first("11"@, ';', color);
            assert(text::split(content, ';') =~= seq!["11"@, color]);
            assert("11"@[1] != "10"@[1]);
        },
        ColorQuery::Palette(index) => {
            let slot = text::decimal_text(index as nat);
            lemma_slot_text(index as nat);
            assert forall|i: int| 0 <= i < slot.len() implies slot[i] != ';' by {
                assert(field_char(slot[i]));
            }
            text::lemma_split_first(slot, ';', color);
            text::lemma_split_first("4"@, ';', slot.push(';') + color);
            assert(content =~= "4"@.push(';') + (slot.push(';') + color));
            let fields = text::split(content, ';');
            assert(fields =~= seq!["4"@, slot, color]);
            assert("4"@.len() != "10"@.len() && "4"@.len() != "11"@.len());
            reveal_with_fuel(terminal_theme::palette_replies, 2);
        },
    }
}

/// What a terminal answers of its colors is understood: the answers to questions for colors of its
/// theme tell just these colors, and nothing of them is taken for input. The table must know the
/// texts of the colors.
pub proof fn lemma_answers_are_understood(
    queries: Seq<ColorQuery>,
    theme: terminal_theme::ThemeView,
    table: Seq<(Seq<char>, Color)>,
)
    requires
        query_answers(queries, theme).len() <= usize::MAX,
        forall|i: int| 0 <= i < queries.len() ==> asks_theme(#[trigger] queries[i]),
        forall|i: int|
            0 <= i < queries.len() ==> terminal_theme::color_of(
                table,
                color_text(asked_color(#[trigger] queries[i], theme)),
            ) == Some(asked_color(queries[i], theme)),
    ensures
        terminal_theme::input_replies(query_answers(queries, theme), table) == (
            learned(queries, theme),
            Seq::<u8>::empty(),
        ),
{
    let contents = answer_contents(queries, theme);
    lemma_answers_are_framed(queries, theme);
    assert forall|i: int| 0 <= i < contents.len() implies terminal_theme::unbroken(
        #[trigger] contents[i],
    ) by {
        assert(asks_theme(queries[i]));
        lemma_answer_is_framed(queries[i], theme);
    }
    terminal_theme::lemma_commands_are_read(contents, table);
    lemma_contents_are_understood(queries, theme, table);
}

spec fn answer_contents(queries: Seq<ColorQuery>, theme: terminal_theme::ThemeView) -> Seq<Seq<u8>> {
    Seq::new(
        queries.len(),
        |i: int| vstd::utf8::encode_utf8(answer_content(queries[i], theme)),
    )
}

proof fn lemma_answers_are_framed(queries: Seq<ColorQuery>, theme: terminal_theme::ThemeView)
    requires
        forall|i: int| 0 <= i < queries.len() ==> asks_theme(#[trigger] queries[i]),
    ensures
        query_answers(queries, theme) == terminal_theme::framed_all(
            answer_contents(queries, theme),
        ),
        query_answers(queries, theme).len() <= 27 * queries.len(),
    decreases queries.len(),
{
    if queries.len() > 0 {
        assert forall|i: int| 0 <= i < queries.drop_last().len() implies asks_theme(
            #[trigger] queries.drop_last()[i],
        ) by {
            assert(asks_theme(queries[i]));
        }
        lemma_answers_are_framed(queries.drop_last(), theme);
        assert(asks_theme(queries[queries.len() - 1]));
        lemma_answer_is_framed(queries.last(), theme);
        assert(answer_contents(queries, theme).drop_last() =~= answer_contents(
            queries.drop_last(),
            theme,
        ));
    }
}

proof fn lemma_contents_are_understood(
    queries: Seq<ColorQuery>,
    theme: terminal_theme::ThemeView,
    table: Seq<(Seq<char>, Color)>,
)
    requires
        forall|i: int| 0 <= i < queries.len() ==> asks_theme(#[trigger] queries[i]),
        forall|i: int|
            0 <= i < queries.len() ==> terminal_theme::color_of(
                table,
                color_text(asked_color(#[trigger] queries[i], theme)),
            ) == Some(asked_color(queries[i], theme)),
    ensures
        terminal_theme::contents_replies(answer_contents(queries, theme), table) == (
            learned(queries, theme),
            Seq::<u8>::empty(),
        ),
    decreases queries.len(),
{
    if queries.len() > 0 {
        let front = queries.drop_last();
        assert forall|i: int| 0 <= i < front.len() implies asks_theme(#[trigger] front[i])
            && terminal_theme::color_of(table, color_text(asked_color(front[i], theme))) == Some(
            asked_color(front[i], theme),
        ) by {
            assert(asks_theme(queries[i]));
        }
        lemma_contents_are_understood(front, theme, table);
        assert(asks_theme(queries[queries.len() - 1]));
        lemma_answer_is_understood(queries.last(), theme, table, learned(front, theme));
        assert(answer_contents(queries, theme).drop_last() =~= answer_contents(front, theme));
        assert(answer_contents(queries, theme).last() == vstd::utf8::encode_utf8(
            answer_content(queries.last(), theme),
        ));
    }
}

/// The questions for every color of a theme: both default colors and then the palette.
pub open spec fn theme_queries() -> Seq<ColorQuery> {
    seq![ColorQuery::Foreground, ColorQuery::Background] + Seq::new(
        16,
        |i: int| ColorQuery::Palette(i as u8),
    )
}

proof fn lemma_learned_palette(theme: terminal_theme::ThemeView, count: int)
    requires
        0 <= count <= 16,
    ensures
        ({
            let replies = learned(theme_queries().take(2 + count), theme);
            &&& replies.foreground == Some(theme.foreground)
            &&& replies.background == Some(theme.background)
            &&& replies.ansi.len() == 16
            &&& forall|i: int| 0 <= i < count ==> #[trigger] replies.ansi[i] == Some(theme.ansi[i])
        }),
    decreases count,
{
    let asked = theme_queries().take(2 + count);
    if count == 0 {
        reveal_with_fuel(learned, 3);
        assert(asked =~= seq![ColorQuery::Foreground, ColorQuery::Background]);
        assert(asked.drop_last() =~= seq![ColorQuery::Foreground]);
        assert(asked.drop_last().drop_last() =~= Seq::<ColorQuery>::empty());
    } else {
        lemma_learned_palette(theme, count - 1);
        assert(asked.drop_last() =~= theme_queries().take(1 + count));
        assert(asked.last() == ColorQuery::Palette((count - 1) as u8));
    }
}

/// A terminal that is asked for every color of its theme tells the whole theme: its answers are
/// complete, nothing of them is taken for input, and they put its theme in the place of any other.
pub proof fn lemma_theme_is_discovered(
    theme: terminal_theme::ThemeView,
    other: terminal_theme::ThemeView,
    table: Seq<(Seq<char>, Color)>,
)
    requires
        theme.ansi.len() == 16,
        other.ansi.len() == 16,
        forall|i: int|
            0 <= i < 18 ==> terminal_theme::color_of(
                table,
                color_text(asked_color(#[trigger] theme_queries()[i], theme)),
            ) == Some(asked_color(theme_queries()[i], theme)),
    ensures
        ({
            let (replies, kept) = terminal_theme::input_replies(
                query_answers(theme_queries(), theme),
                table,
            );
            &&& replies.complete()
            &&& kept == Seq::<u8>::empty()
            &&& replies.applied(other) == theme
        }),
{
    let queries = theme_queries();
    assert forall|i: int| 0 <= i < queries.len() implies asks_theme(#[trigger] queries[i]) by {
        if i >= 2 {
            assert(queries[i] == ColorQuery::Palette((i - 2) as u8));
        }
    }
    lemma_answers_are_framed(queries, theme);
    lemma_answers_are_understood(queries, theme, table);
    lemma_learned_palette(theme, 16);
    assert(queries.take(18) =~= queries);
    let replies = learned(queries, theme);
    assert(replies.applied(other).ansi =~= theme.ansi);
}

/// How the host introduces itself to an application that asks for both default colors.
pub open spec fn host_introduction(pixel_height: u32, pixel_width: u32) -> Seq<char> {
    "\x1bP>|termctrl "@ + VERSION@
        + "\x1b\\\x1b[1;1R\x1b[?1016;0$y\x1b[?2027;0$y\x1b[?2031;2$y\x1b[?1004;1$y\x1b[?2004;2$y\x1b[?2026;2$y\x1b[?0u\x1b[1;1R\x1b[1;1R\x1b[4;"@
        + text::decimal_text(pixel_height as nat) + ";"@ + text::decimal_text(pixel_width as nat)
        + "t\x1b[?6c"@
}

/// The question for both default colors.
pub open spec fn opentui_question() -> Seq<u8> {
    vstd::utf8::encode_utf8("\x1b]10;?\x07\x1b]11;?\x07"@)
}

/// The start of the question for graphics support.
pub open spec fn kitty_question() -> Seq<u8> {
    vstd::utf8::encode_utf8("\x1b_Gi=31337"@)
}

/// The answer to the question for graphics support.
pub open spec fn kitty_answer() -> Seq<u8> {
    vstd::utf8::encode_utf8("\x1b_Gi=31337;EINVAL:graphics unavailable\x1b\\"@)
}

/// Output bytes that are looked at again together with the bytes that follow them.
pub const PROBE_BYTES: usize = 64;

/// The terminal that an application talks to.
#[derive(Debug)]
pub struct Host {
    pub enabled: bool,
    pub opentui_replied: bool,
    pub kitty_replied: bool,
    pub probe: Vec<u8>,
    pub color_probe: Vec<u8>,
    pub pixel_width: u32,
    pub pixel_height: u32,
    pub theme: TerminalTheme,
}

/// The last `count` bytes, or all of them where there are fewer.
pub open spec fn last_bytes(bytes: Seq<u8>, count: int) -> Seq<u8> {
    if bytes.len() > count {
        bytes.subrange(bytes.len() - count, bytes.len() as int)
    } else {
        bytes
    }
}

impl Host {
    /// Whether the introduction is owed once `output` was written.
    pub open spec fn introduces(&self, output: Seq<u8>) -> bool {
        !self.opentui_replied && text::occurs(self.probe@ + output, opentui_question())
    }

    /// Whether an answer on graphics support is owed once `output` was written.
    pub open spec fn declines_graphics(&self, output: Seq<u8>) -> bool {
        !self.kitty_replied && text::occurs(self.probe@ + output, kitty_question())
    }

    /// What the host answers to `output`.
    pub open spec fn answer(&self, output: Seq<u8>) -> Seq<u8> {
        if !self.enabled {
            Seq::empty()
        } else {
            query_answers(scan_queries(self.color_probe@ + output, 0).0, self.theme@) + (
            if self.introduces(output) {
                vstd::utf8::encode_utf8(host_introduction(self.pixel_height, self.pixel_width))
            } else {
                Seq::empty()
            }) + (if self.declines_graphics(output) {
                kitty_answer()
            } else {
                Seq::empty()
            })
        }
    }

    /// A host with the default colors.
    pub fn new(options: &Options) -> (host: Host)
        ensures
            host.enabled == options.opentui_host,
            !host.opentui_replied,
            !host.kitty_replied,
            host.probe@ == Seq::<u8>::empty(),
            host.color_probe@ == Seq::<u8>::empty(),
            host.pixel_width == options.cols * options.cell_width,
            host.pixel_height == options.rows * options.cell_height,
            host.theme@ == terminal_theme::default_theme(),
    {
        Host::new_with_theme(options, TerminalTheme::default())
    }

    /// A host with the colors of `theme`.
    pub fn new_with_theme(options: &Options, theme: TerminalTheme) -> (host: Host)
        ensures
            host.enabled == options.opentui_host,
            !host.opentui_replied,
            !host.kitty_replied,
            host.probe@ == Seq::<u8>::empty(),
            host.color_probe@ == Seq::<u8>::empty(),
            host.pixel_width == options.cols * options.cell_width,
            host.pixel_height == options.rows * options.cell_height,
            host.theme == theme,
    {
        Host {
            enabled: options.opentui_host,
            opentui_replied: false,
            kitty_replied: false,
            probe: Vec::new(),
            color_probe: Vec::new(),
            pixel_width: pixels(options.cols, options.cell_width),
            pixel_height: pixels(options.rows, options.cell_height),
            theme,
        }
    }

    /// Whether the host answers at all.
    pub fn is_enabled(&self) -> (enabled: bool)
        ensures
            enabled == self.enabled,
    {
        self.enabled
    }

    /// Takes a new size.
    pub fn resize(&mut self, cols: u16, rows: u16, cell_width: u16, cell_height: u16)
        ensures
            *final(self) == (Host {
                pixel_width: (cols * cell_width) as u32,
                pixel_height: (rows * cell_height) as u32,
                ..*old(self)
            }),
    {
        self.pixel_width = pixels(cols, cell_width);
        self.pixel_height = pixels(rows, cell_height);
    }

    /// Takes new colors.
    pub fn set_theme(&mut self, theme: TerminalTheme)
        ensures
            *final(self) == (Host { theme, ..*old(self) }),
    {
        self.theme = theme;
    }

    /// Whether this is the host `before` once it has answered `output`.
    pub open spec fn has_answered(&self, before: Host, output: Seq<u8>) -> bool {
        &&& self.enabled == before.enabled
        &&& self.pixel_width == before.pixel_width
        &&& self.pixel_height == before.pixel_height
        &&& self.theme == before.theme
        &&& !before.enabled ==> *self == before
        &&& before.enabled ==> {
            &&& self.opentui_replied == (before.opentui_replied || before.introduces(output))
            &&& self.kitty_replied == (before.kitty_replied || before.declines_graphics(output))
            &&& self.probe@ == last_bytes(before.probe@ + output, PROBE_BYTES as int)
            &&& self.color_probe@ == scan_queries(before.color_probe@ + output, 0).1
        }
    }

    /// Answers what an application asks in its output.
    pub fn respond(&mut self, output: &[u8]) -> (response: Vec<u8>)
        ensures
            response@ == old(self).answer(output@),
            final(self).has_answered(*old(self), output@),
    {
        let mut response: Vec<u8> = Vec::new();
        if !self.enabled {
            return response;
        }
        text::append_bytes(&mut self.probe, output);
        text::append_bytes(&mut self.color_probe, output);
        let queries = take_color_queries(&mut self.color_probe);
        append_answers(&mut response, &queries, &self.theme);
        let ghost answers = query_answers(queries@, self.theme@);
        assert(response@ =~= answers);
        if !self.opentui_replied && text::bytes_contain(
            self.probe.as_slice(),
            "\x1b]10;?\x07\x1b]11;?\x07".as_bytes(),
        ) {
            let introduction = introduce(self.pixel_height, self.pixel_width);
            text::append_text(&mut response, introduction.as_str());
            self.opentui_replied = true;
        }
        if !self.kitty_replied && text::bytes_contain(
            self.probe.as_slice(),
            "\x1b_Gi=31337".as_bytes(),
        ) {
            text::append_text(
                &mut response,
                "\x1b_Gi=31337;EINVAL:graphics unavailable\x1b\\",
            );
            self.kitty_replied = true;
        }
        assert(response@ =~= old(self).answer(output@));
        keep_last(&mut self.probe, PROBE_BYTES);
        response
    }
}

/// The extent of `cells` cells of `size` pixels.
pub fn pixels(cells: u16, size: u16) -> (extent: u32)
    ensures
        extent == cells * size,
{
    assert(cells * size <= 0xffff * 0xffff) by (nonlinear_arith)
        requires
            cells <= 0xffff,
            size <= 0xffff,
    ;
    cells as u32 * size as u32
}

/// Cuts `bytes` down to its last `count`.
pub fn keep_last(bytes: &mut Vec<u8>, count: usize)
    ensures
        final(bytes)@ == last_bytes(old(bytes)@, count as int),
{
    if bytes.len() > count {
        let kept = vstd::slice::slice_to_vec(
            vstd::slice::slice_subrange(bytes.as_slice(), bytes.len() - count, bytes.len()),
        );
        *bytes = kept;
    }
}

fn introduce(pixel_height: u32, pixel_width: u32) -> (introduction: String)
    ensures
        introduction@ == host_introduction(pixel_height, pixel_width),
{
    let mut introduction = String::new();
    introduction.append("\x1bP>|termctrl ");
    introduction.append(VERSION);
    introduction.append(
        "\x1b\\\x1b[1;1R\x1b[?1016;0$y\x1b[?2027;0$y\x1b[?2031;2$y\x1b[?1004;1$y\x1b[?2004;2$y\x1b[?2026;2$y\x1b[?0u\x1b[1;1R\x1b[1;1R\x1b[4;",
    );
    introduction.append(text::decimal(pixel_height as u64).as_str());
    introduction.append(";");
    introduction.append(text::decimal(pixel_width as u64).as_str());
    introduction.append("t\x1b[?6c");
    assert(introduction@ =~= host_introduction(pixel_height, pixel_width));
    introduction
}

fn append_answers(response: &mut Vec<u8>, queries: &Vec<ColorQuery>, theme: &TerminalTheme)
    ensures
        final(response)@ == old(response)@ + query_answers(queries@, theme@),
{
    let ghost before = response@;
    let mut index: usize = 0;
    assert(queries@.take(0) =~= Seq::<ColorQuery>::empty());
    assert(before + query_answers(queries@.take(0), theme@) =~= before);
    while index < queries.len()
        invariant
            index <= queries@.len(),
            response@ == before + query_answers(queries@.take(index as int), theme@),
        decreases queries@.len() - index,
    {
        assert(queries@.take(index + 1).drop_last() =~= queries@.take(index as int));
        let ghost held = response@;
        match queries[index] {
            ColorQuery::Foreground => append_color_response(response, "10", theme.foreground),
            ColorQuery::Background => append_color_response(response, "11", theme.background),
            ColorQuery::Palette(slot) => {
                let color = if slot < 16 {
                    theme.ansi[slot as usize]
                } else {
                    frame::indexed_color(slot)
                };
                let mut selector = "4;".to_owned();
                selector.append(text::decimal(slot as u64).as_str());
                append_color_response(response, selector.as_str(), color);
            },
        }
        index += 1;
        assert(response@ =~= before + query_answers(queries@.take(index as int), theme@));
    }
    assert(queries@.take(index as int) =~= queries@);
}

/// A question that arrives in pieces is found when its last piece arrives: the bytes kept of
/// earlier output are enough.
pub proof fn lemma_probe_suffices(earlier: Seq<u8>, output: Seq<u8>, question: Seq<u8>)
    requires
        question.len() <= PROBE_BYTES,
        !text::occurs(earlier, question),
    ensures
        text::occurs(last_bytes(earlier, PROBE_BYTES as int) + output, question) == text::occurs(
            earlier + output,
            question,
        ),
{
    let kept = last_bytes(earlier, PROBE_BYTES as int);
    let cut = earlier.len() - kept.len();
    if text::occurs(earlier + output, question) {
        let index = choose|index: int| text::occurs_at(earlier + output, question, index);
        if index + question.len() <= earlier.len() {
            assert((earlier + output).subrange(index, index + question.len())
                =~= earlier.subrange(index, index + question.len()));
            assert(text::occurs_at(earlier, question, index));
        }
        assert((kept + output).subrange(index - cut, index - cut + question.len()) =~= (earlier
            + output).subrange(index, index + question.len()));
        assert(text::occurs_at(kept + output, question, index - cut));
    }
    if text::occurs(kept + output, question) {
        let index = choose|index: int| text::occurs_at(kept + output, question, index);
        assert((earlier + output).subrange(index + cut, index + cut + question.len()) =~= (kept
            + output).subrange(index, index + question.len()));
        assert(text::occurs_at(earlier + output, question, index + cut));
    }
}

/// The host introduces itself and declines graphics once: after it did, its answers hold color
/// answers only.
pub proof fn lemma_host_introduces_once(host: Host, output: Seq<u8>)
    requires
        host.enabled,
        host.opentui_replied,
        host.kitty_replied,
    ensures
        host.answer(output) == query_answers(
            scan_queries(host.color_probe@ + output, 0).0,
            host.theme@,
        ),
{
    assert(host.answer(output) =~= query_answers(
        scan_queries(host.color_probe@ + output, 0).0,
        host.theme@,
    ));
}

/// The kind of a failed write, as far as it matters here.
#[derive(Clone, Copy, Debug, PartialEq, Eq, Structural)]
pub enum WriteFailure {
    BrokenPipe,
    NotConnected,
    UnexpectedEof,
    Other,
}

/// One input or output error among the causes of a failure.
#[derive(Clone, Copy, Debug, PartialEq, Eq, Structural)]
pub struct IoCause {
    pub kind: WriteFailure,
    pub os_code: Option<i32>,
}

/// The operating system's code for an input/output error. A pseudo-terminal gives it when its
/// other end is closed.
pub const EIO: i32 = 5;

/// Whether a cause tells that the application closed its terminal.
pub open spec fn closes_input(cause: IoCause) -> bool {
    cause.kind != WriteFailure::Other || cause.os_code == Some(EIO)
}

/// Whether terminal input failed because the application closed its terminal.
pub fn terminal_input_closed(causes: &Vec<IoCause>) -> (closed: bool)
    ensures
        closed == exists|i: int| 0 <= i < causes@.len() && closes_input(#[trigger] causes@[i]),
{
    let mut index: usize = 0;
    while index < causes.len()
        invariant
            index <= causes@.len(),
            forall|i: int| 0 <= i < index ==> !closes_input(#[trigger] causes@[i]),
        decreases causes@.len() - index,
    {
        let cause = causes[index];
        let failed = match cause.os_code {
            Some(code) => code == EIO,
            None => false,
        };
        if !(cause.kind == WriteFailure::Other) || failed {
            assert(closes_input(causes@[index as int]));
            return true;
        }
        index += 1;
    }
    false
}

/// What is sent to an application after it wrote `output`: the host's answers where the host
/// answers at all, and the terminal's own otherwise. Never both.
pub fn respond_to_output(host: &mut Host, terminal_response: Vec<u8>, output: &[u8]) -> (response:
    Vec<u8>)
    ensures
        old(host).enabled ==> response@ == old(host).answer(output@),
        !old(host).enabled ==> response == terminal_response,
        final(host).has_answered(*old(host), output@),
{
    if host.is_enabled() {
        host.respond(output)
    } else {
        terminal_response
    }
}

/// The response as it counts once it was sent: a response to a closed terminal counts as none.
pub fn delivered(response: Vec<u8>, open: bool) -> (result: Vec<u8>)
    ensures
        open ==> result == response,
        !open ==> result@ == Seq::<u8>::empty(),
{
    if open {
        response
    } else {
        Vec::new()
    }
}

/// Longest wait, in nanoseconds, for the next chunk of output.
pub const CHUNK_TIMEOUT: u128 = 20_000_000;

/// What waiting for output brought.
#[derive(Clone, Copy, Debug, PartialEq, Eq, Structural)]
pub enum Chunk {
    Output,
    Timeout,
    Closed,
}

/// How far the observation of an application has come.
#[derive(Clone, Copy, Debug, PartialEq, Eq, Structural)]
pub enum Phase {
    /// Waiting out the initial delay.
    Delay,
    /// Waiting for the text that is to show.
    Pattern,
    /// Waiting for the output to settle.
    Settling,
    /// Waiting for the output to settle after input was sent.
    SettlingAfterInput,
    /// Nothing is left to do.
    Done,
}

/// What to do next with an observed application.
#[derive(Clone, Copy, Debug, PartialEq, Eq, Structural)]
pub enum Next {
    /// Wait at most so many nanoseconds for output.
    Receive { timeout: u128 },
    /// Send the input.
    Send,
    /// Take the shot.
    Finish,
    /// Give up: the text that was waited for does not show.
    PatternMissing,
}

/// The observation of one application. Instants are nanoseconds since it was launched.
#[derive(Clone, Copy, Debug, PartialEq, Eq, Structural)]
pub struct Run {
    pub deadline: u128,
    pub delay_end: u128,
    pub settle: u128,
    pub last_output: Option<u128>,
    pub last_chunk: Option<Chunk>,
    pub closed: bool,
    pub phase: Phase,
}

/// What an observation waits for and sends.
pub struct Goal {
    pub wait_for: Option<Seq<char>>,
    pub has_input: bool,
    pub delayed: bool,
}

impl Options {
    /// What an observation with these options waits for and sends.
    pub open spec fn goal(&self) -> Goal {
        Goal {
            wait_for: match self.wait_for {
                Some(pattern) => Some(pattern@),
                None => None,
            },
            has_input: self.input@.len() > 0,
            delayed: self.initial_delay > 0,
        }
    }
}

impl Goal {
    /// Whether everything waited for shows.
    pub open spec fn shown(self, visible: Seq<char>) -> bool {
        self.wait_for is Some ==> text::occurs(visible, self.wait_for->0)
    }
}

/// The time from `start` to `now`, or none where `now` is not later.
pub open spec fn elapsed(start: u128, now: u128) -> int {
    if now > start {
        now - start
    } else {
        0
    }
}

impl Run {
    /// Waiting for output, but not past the deadline.
    pub open spec fn receiving(self, now: u128) -> Next {
        Next::Receive {
            timeout: if now >= self.deadline {
                0u128
            } else if self.deadline - now < CHUNK_TIMEOUT {
                (self.deadline - now) as u128
            } else {
                CHUNK_TIMEOUT
            },
        }
    }

    /// Whether the application wrote, and then nothing for the settling time.
    pub open spec fn quiet(self, now: u128) -> bool {
        self.last_output is Some && elapsed(self.last_output->0, now) >= self.settle
    }

    /// Whether waiting for the output to settle is over.
    pub open spec fn settled(self, now: u128) -> bool {
        match self.last_chunk {
            None => false,
            Some(Chunk::Closed) => true,
            Some(Chunk::Timeout) => now >= self.deadline || self.quiet(now),
            Some(Chunk::Output) => self.quiet(now),
        }
    }

    /// The end of an observation before input: the text must show, and the input is sent where
    /// there is still someone to take it.
    pub open spec fn concluded(self, goal: Goal, now: u128, visible: Seq<char>) -> (Run, Next) {
        if !goal.shown(visible) {
            (Run { phase: Phase::Done, ..self }, Next::PatternMissing)
        } else if !self.closed && now < self.deadline && goal.has_input {
            (
                Run {
                    phase: Phase::SettlingAfterInput,
                    last_output: None,
                    last_chunk: None,
                    ..self
                },
                Next::Send,
            )
        } else {
            (Run { phase: Phase::Done, ..self }, Next::Finish)
        }
    }

    /// What follows when nothing is waited for any more. Input that has waited for its moment is
    /// sent at once; everything else lets the output settle.
    pub open spec fn waited(self, goal: Goal, now: u128, visible: Seq<char>) -> (Run, Next) {
        if self.closed || now >= self.deadline || (goal.has_input && (goal.wait_for is Some
            || goal.delayed)) {
            self.concluded(goal, now, visible)
        } else {
            (Run { phase: Phase::Settling, last_chunk: None, ..self }, self.receiving(now))
        }
    }

    /// What follows once the initial delay is over.
    pub open spec fn matching(self, goal: Goal, now: u128, visible: Seq<char>) -> (Run, Next) {
        if !self.closed && now < self.deadline && !goal.shown(visible) {
            (Run { phase: Phase::Pattern, ..self }, self.receiving(now))
        } else {
            self.waited(goal, now, visible)
        }
    }

    /// The next step of an observation.
    pub open spec fn stepped(self, goal: Goal, now: u128, visible: Seq<char>) -> (Run, Next) {
        match self.phase {
            Phase::Delay => if !self.closed && now < self.delay_end {
                (self, self.receiving(now))
            } else {
                self.matching(goal, now, visible)
            },
            Phase::Pattern => self.matching(goal, now, visible),
            Phase::Settling => if self.settled(now) {
                self.concluded(goal, now, visible)
            } else {
                (self, self.receiving(now))
            },
            Phase::SettlingAfterInput => if self.settled(now) {
                (Run { phase: Phase::Done, ..self }, Next::Finish)
            } else {
                (self, self.receiving(now))
            },
            Phase::Done => (self, Next::Finish),
        }
    }

    /// Starts observing an application that was launched at zero.
    pub fn start(options: &Options) -> (run: Run)
        ensures
            run == (Run {
                deadline: options.deadline,
                delay_end: if options.initial_delay < options.deadline {
                    options.initial_delay
                } else {
                    options.deadline
                },
                settle: options.settle,
                last_output: None,
                last_chunk: None,
                closed: false,
                phase: Phase::Delay,
            }),
    {
        Run {
            deadline: options.deadline,
            delay_end: if options.initial_delay < options.deadline {
                options.initial_delay
            } else {
                options.deadline
            },
            settle: options.settle,
            last_output: None,
            last_chunk: None,
            closed: false,
            phase: Phase::Delay,
        }
    }

    fn receive(&self, now: u128) -> (next: Next)
        ensures
            next == self.receiving(now),
    {
        let left: u128 = if now >= self.deadline {
            0
        } else {
            self.deadline - now
        };
        Next::Receive {
            timeout: if left < CHUNK_TIMEOUT {
                left
            } else {
                CHUNK_TIMEOUT
            },
        }
    }

    fn is_settled(&self, now: u128) -> (result: bool)
        ensures
            result == self.settled(now),
    {
        let quiet = match self.last_output {
            Some(last) => now.saturating_sub(last) >= self.settle,
            None => false,
        };
        match self.last_chunk {
            None => false,
            Some(Chunk::Closed) => true,
            Some(Chunk::Timeout) => now >= self.deadline || quiet,
            Some(Chunk::Output) => quiet,
        }
    }

    fn conclude(
        &mut self,
        options: &Options,
        now: u128,
        shown: bool,
        Ghost(visible): Ghost<Seq<char>>,
    ) -> (next: Next)
        requires
            shown == options.goal().shown(visible),
        ensures
            (*final(self), next) == old(self).concluded(options.goal(), now, visible),
    {
        if !shown {
            self.phase = Phase::Done;
            return Next::PatternMissing;
        }
        if !self.closed && now < self.deadline && options.input.len() > 0 {
            self.phase = Phase::SettlingAfterInput;
            self.last_output = None;
            self.last_chunk = None;
            return Next::Send;
        }
        self.phase = Phase::Done;
        Next::Finish
    }

    /// Decides what to do at `now`, when the terminal shows `visible`.
    pub fn step(&mut self, options: &Options, now: u128, visible: &str) -> (next: Next)
        ensures
            (*final(self), next) == old(self).stepped(options.goal(), now, visible@),
    {
        let shown = match &options.wait_for {
            Some(pattern) => text::text_contains(visible, pattern.as_str()),
            None => true,
        };
        assert(shown == options.goal().shown(visible@));
        match self.phase {
            Phase::Done => {
                return Next::Finish;
            },
            Phase::SettlingAfterInput => {
                if self.is_settled(now) {
                    self.phase = Phase::Done;
                    return Next::Finish;
                }
                return self.receive(now);
            },
            Phase::Settling => {
                if self.is_settled(now) {
                    return self.conclude(options, now, shown, Ghost(visible@));
                }
                return self.receive(now);
            },
            Phase::Delay => {
                if !self.closed && now < self.delay_end {
                    return self.receive(now);
                }
            },
            Phase::Pattern => {},
        }
        if !self.closed && now < self.deadline && !shown {
            self.phase = Phase::Pattern;
            return self.receive(now);
        }
        let held = options.input.len() > 0 && (options.wait_for.is_some() || options.initial_delay
            > 0);
        if self.closed || now >= self.deadline || held {
            return self.conclude(options, now, shown, Ghost(visible@));
        }
        self.phase = Phase::Settling;
        self.last_chunk = None;
        self.receive(now)
    }

    /// Notes what waiting for output brought at `now`.
    pub fn note(&mut self, chunk: Chunk, now: u128)
        ensures
            *final(self) == (Run {
                last_chunk: Some(chunk),
                last_output: if chunk == Chunk::Output {
                    Some(now)
                } else {
                    old(self).last_output
                },
                closed: old(self).closed || chunk == Chunk::Closed,
                ..*old(self)
            }),
            *final(self) == old(self).noted(chunk, now),
    {
        match chunk {
            Chunk::Output => {
                self.last_output = Some(now);
            },
            Chunk::Closed => {
                self.closed = true;
            },
            Chunk::Timeout => {},
        }
        self.last_chunk = Some(chunk);
    }
}

/// How far a phase is from the end of an observation.
pub open spec fn phases_left(phase: Phase) -> int {
    match phase {
        Phase::Delay => 4,
        Phase::Pattern => 3,
        Phase::Settling => 2,
        Phase::SettlingAfterInput => 1,
        Phase::Done => 0,
    }
}

/// An observation only moves forward, so it sends its input at most once. It never waits past its
/// deadline, nor longer than one chunk's time.
pub proof fn lemma_observation_advances(run: Run, goal: Goal, now: u128, visible: Seq<char>)
    ensures
        ({
            let (after, next) = run.stepped(goal, now, visible);
            &&& phases_left(after.phase) <= phases_left(run.phase)
            &&& next is Send ==> phases_left(run.phase) > 1 && after.phase
                == Phase::SettlingAfterInput && goal.has_input && !run.closed
            &&& next matches Next::Receive { timeout } ==> timeout <= CHUNK_TIMEOUT && (timeout == 0
                || now + timeout <= run.deadline)
            &&& next is Finish || next is PatternMissing ==> after.phase == Phase::Done
        }),
{
}

/// Once an application has closed its terminal, an observation ends without waiting again.
pub proof fn lemma_closed_observation_ends(run: Run, goal: Goal, now: u128, visible: Seq<char>)
    requires
        run.closed,
        run.last_chunk == Some(Chunk::Closed),
    ensures
        run.stepped(goal, now, visible).1 is Finish || run.stepped(
            goal,
            now,
            visible,
        ).1 is PatternMissing,
{
}

/// Once the deadline has passed without output, an observation ends without waiting again.
pub proof fn lemma_late_observation_ends(run: Run, goal: Goal, now: u128, visible: Seq<char>)
    requires
        now >= run.deadline,
        run.delay_end <= run.deadline,
        run.last_chunk == Some(Chunk::Timeout),
    ensures
        run.stepped(goal, now, visible).1 is Finish || run.stepped(
            goal,
            now,
            visible,
        ).1 is PatternMissing,
{
}

/// Before input was sent, a shot is taken only while the text waited for shows.
pub proof fn lemma_shot_shows_pattern(run: Run, goal: Goal, now: u128, visible: Seq<char>)
    requires
        run.phase == Phase::Delay || run.phase == Phase::Pattern || run.phase == Phase::Settling,
        run.stepped(goal, now, visible).1 is Finish || run.stepped(goal, now, visible).1 is Send,
    ensures
        goal.shown(visible),
{
}

/// One turn of an observation: what waiting for output brought and when, and the moment and the
/// screen of the step that follows.
pub struct Turn {
    pub chunk: Chunk,
    pub at: u128,
    pub now: u128,
    pub visible: Seq<char>,
}

impl Run {
    /// What it is once waiting for output has brought `chunk` at `now`.
    pub open spec fn noted(self, chunk: Chunk, now: u128) -> Run {
        Run {
            last_chunk: Some(chunk),
            last_output: if chunk == Chunk::Output {
                Some(now)
            } else {
                self.last_output
            },
            closed: self.closed || chunk == Chunk::Closed,
            ..self
        }
    }

    /// What follows when waiting for output brought something and the next step is taken.
    pub open spec fn turned(self, goal: Goal, turn: Turn) -> (Run, Next) {
        self.noted(turn.chunk, turn.at).stepped(goal, turn.now, turn.visible)
    }

    /// What it is after the first `count` turns.
    pub open spec fn after_turns(self, goal: Goal, turns: Seq<Turn>, count: nat) -> Run
        decreases count,
    {
        if count == 0 {
            self
        } else {
            self.after_turns(goal, turns, (count - 1) as nat).turned(goal, turns[count - 1]).0
        }
    }
}

/// A step of an observation ends it only with a reason: the terminal was closed, the deadline has passed, or
/// output came and then none for the settling time. Input that there is to send has been sent by
/// then, unless the terminal was closed or it was too late for it, and the text waited for shows.
pub proof fn lemma_observation_finishes_with_a_reason(
    run: Run,
    options: Options,
    now: u128,
    visible: Seq<char>,
)
    requires
        run.phase != Phase::Done,
        run.stepped(options.goal(), now, visible).1 is Finish,
    ensures
        run.closed || run.last_chunk == Some(Chunk::Closed) || now >= run.deadline || (
        run.last_output is Some && (run.last_output->0 + run.settle <= now || run.settle == 0)),
        run.phase != Phase::SettlingAfterInput ==> options.input@.len() == 0 || run.closed || now
            >= run.deadline,
        run.phase != Phase::SettlingAfterInput && options.wait_for is Some ==> text::occurs(
            visible,
            options.wait_for->0@,
        ),
{
}

/// Input is sent only when there is some, the delay is over, the text waited for shows, the terminal
/// is open and there is still time. Without a text to wait for or a delay the output has settled first.
/// Only output that comes afterwards counts from then on.
pub proof fn lemma_observation_sends_at_the_right_moment(
    run: Run,
    options: Options,
    now: u128,
    visible: Seq<char>,
)
    requires
        run.stepped(options.goal(), now, visible).1 is Send,
    ensures
        options.input@.len() > 0,
        !run.closed,
        now < run.deadline,
        run.phase == Phase::Delay ==> now >= run.delay_end,
        options.wait_for matches Some(pattern) ==> text::occurs(visible, pattern@),
        options.wait_for is None && options.initial_delay == 0 ==> run.phase == Phase::Settling
            && run.last_output is Some && (run.last_output->0 + run.settle <= now || run.settle
            == 0) || run.last_chunk == Some(Chunk::Closed),
        ({
            let after = run.stepped(options.goal(), now, visible).0;
            &&& after.phase == Phase::SettlingAfterInput
            &&& after.last_output is None
            &&& after.last_chunk is None
        }),
{
}

/// What is waited for is waited for: the delay, the text while the terminal is open and there is
/// time, and the output to settle. It is not waited for any longer either: input is sent once its
/// text shows, and a screen that has settled is taken.
pub proof fn lemma_observation_waits_as_long_as_needed(
    run: Run,
    options: Options,
    now: u128,
    visible: Seq<char>,
)
    requires
        !run.closed,
        run.last_chunk != Some(Chunk::Closed),
        now < run.deadline,
    ensures
        ({
            let (after, next) = run.stepped(options.goal(), now, visible);
            let shown = options.wait_for is Some ==> text::occurs(visible, options.wait_for->0@);
            let started = run.phase == Phase::Pattern || (run.phase == Phase::Delay && now
                >= run.delay_end);
            let settling = run.phase == Phase::Settling || run.phase == Phase::SettlingAfterInput;
            let quiet = run.last_chunk is Some && run.last_output is Some && (run.last_output->0
                + run.settle <= now || run.settle == 0);
            &&& run.phase == Phase::Delay && now < run.delay_end ==> next is Receive
            &&& started && !shown ==> next is Receive && after.phase == Phase::Pattern
            &&& started && shown && options.input@.len() > 0 && (options.wait_for is Some || options.initial_delay > 0) ==> next is Send
            &&& started && shown && !(options.input@.len() > 0 && (options.wait_for is Some || options.initial_delay > 0)) ==> next
                is Receive && after.phase == Phase::Settling
            &&& settling && !quiet ==> next is Receive && after == run
            &&& run.phase == Phase::SettlingAfterInput && quiet ==> next is Finish
            &&& run.phase == Phase::Settling && quiet && shown ==> if options.input@.len() > 0 {
                next is Send
            } else {
                next is Finish
            }
            &&& run.phase == Phase::Settling && quiet && !shown ==> next is PatternMissing
        }),
{
}

/// Where the text waited for does not show, that is told, but only once the terminal was closed, it
/// is too late or the output has settled. Once the input was sent the text is not asked for again.
pub proof fn lemma_observation_misses_only_what_does_not_show(
    run: Run,
    options: Options,
    now: u128,
    visible: Seq<char>,
)
    ensures
        run.stepped(options.goal(), now, visible).1 is PatternMissing ==> {
            &&& options.wait_for matches Some(pattern) && !text::occurs(visible, pattern@)
            &&& run.closed || now >= run.deadline || run.phase == Phase::Settling
            &&& run.phase != Phase::SettlingAfterInput
        },
        options.wait_for is Some && !text::occurs(visible, options.wait_for->0@) && run.phase
            == Phase::Pattern && (run.closed || now >= run.deadline) ==> run.stepped(
            options.goal(),
            now,
            visible,
        ).1 is PatternMissing,
{
}

/// While there is time, the next output is waited for 20 ms or until the deadline, whichever is
/// sooner. No step changes the deadline, the delay or the settling time, or forgets that the
/// terminal was closed.
pub proof fn lemma_observation_keeps_its_times(run: Run, options: Options, now: u128, visible: Seq<char>)
    ensures
        ({
            let (after, next) = run.stepped(options.goal(), now, visible);
            &&& next matches Next::Receive { timeout } ==> {
                &&& now + 20_000_000 <= run.deadline ==> timeout == 20_000_000
                &&& now <= run.deadline < now + 20_000_000 ==> timeout == run.deadline - now
                &&& now > run.deadline ==> timeout == 0
            }
            &&& after.deadline == run.deadline
            &&& after.delay_end == run.delay_end
            &&& after.settle == run.settle
            &&& after.closed == run.closed
        }),
{
}

/// Whether output came in one of the first `count` turns at `at`, and none after it.
pub open spec fn last_came_at(turns: Seq<Turn>, count: int, at: u128) -> bool {
    exists|k: int|
        #![trigger turns[k]]
        0 <= k < count && turns[k].chunk == Chunk::Output && turns[k].at == at && forall|j: int|
            k < j < count ==> (#[trigger] turns[j]).chunk != Chunk::Output
}

proof fn lemma_quiet_turn(turns: Seq<Turn>, count: int, at: u128)
    requires
        0 <= count < turns.len(),
        last_came_at(turns, count, at),
        turns[count].chunk != Chunk::Output,
    ensures
        last_came_at(turns, count + 1, at),
{
    let k = choose|k: int|
        #![trigger turns[k]]
        0 <= k < count && turns[k].chunk == Chunk::Output && turns[k].at == at && forall|j: int|
            k < j < count ==> (#[trigger] turns[j]).chunk != Chunk::Output;
    assert(turns[k].at == at);
    assert forall|j: int| k < j < count + 1 implies (#[trigger] turns[j]).chunk
        != Chunk::Output by {
    }
}

proof fn lemma_noted_output(turns: Seq<Turn>, count: int)
    requires
        0 <= count < turns.len(),
        turns[count].chunk == Chunk::Output,
    ensures
        last_came_at(turns, count + 1, turns[count].at),
{
}

proof fn lemma_waiting_keeps(run: Run, goal: Goal, turn: Turn)
    requires
        run.turned(goal, turn).1 is Receive,
    ensures
        ({
            let after = run.turned(goal, turn).0;
            &&& after.phase != Phase::Done
            &&& after.deadline == run.deadline
            &&& after.settle == run.settle
            &&& after.closed == (run.closed || turn.chunk == Chunk::Closed)
            &&& after.last_chunk is None || after.last_chunk == Some(turn.chunk)
            &&& after.last_output is None || after.last_output == if turn.chunk
                == Chunk::Output {
                Some(turn.at)
            } else {
                run.last_output
            }
        }),
{
}

proof fn lemma_output_is_remembered(run: Run, goal: Goal, turns: Seq<Turn>, count: nat)
    requires
        run.last_output is None,
        !run.closed,
        run.last_chunk is None,
        run.phase != Phase::Done,
        count <= turns.len(),
        forall|k: nat|
            k < count ==> (#[trigger] run.after_turns(goal, turns, k)).turned(
                goal,
                turns[k as int],
            ).1 is Receive,
    ensures
        ({
            let after = run.after_turns(goal, turns, count);
            &&& after.phase != Phase::Done
            &&& after.deadline == run.deadline
            &&& after.settle == run.settle
            &&& after.last_output matches Some(at) ==> last_came_at(turns, count as int, at)
            &&& after.closed || after.last_chunk == Some(Chunk::Closed) ==> exists|k: int|
                0 <= k < count && (#[trigger] turns[k]).chunk == Chunk::Closed
        }),
    decreases count,
{
    if count > 0 {
        let last = count - 1;
        lemma_output_is_remembered(run, goal, turns, last as nat);
        let before = run.after_turns(goal, turns, last as nat);
        let turn = turns[last];
        assert(before.turned(goal, turn).1 is Receive);
        lemma_waiting_keeps(before, goal, turn);
        if turn.chunk == Chunk::Output {
            lemma_noted_output(turns, last);
        } else if let Some(at) = before.last_output {
            lemma_quiet_turn(turns, last, at);
        }
    }
}

proof fn lemma_turns_settle(run: Run, options: Options, turns: Seq<Turn>)
    requires
        run.last_output is None,
        !run.closed,
        run.last_chunk is None,
        run.phase != Phase::Done,
        turns.len() > 0,
        forall|k: nat|
            k < turns.len() - 1 ==> (#[trigger] run.after_turns(options.goal(), turns, k)).turned(
                options.goal(),
                turns[k as int],
            ).1 is Receive,
        run.after_turns(options.goal(), turns, (turns.len() - 1) as nat).turned(
            options.goal(),
            turns.last(),
        ).1 is Finish,
    ensures
        ({
            let now = turns.last().now;
            ||| now >= run.deadline
            ||| exists|k: int| 0 <= k < turns.len() && (#[trigger] turns[k]).chunk == Chunk::Closed
            ||| exists|at: u128|
                #[trigger] last_came_at(turns, turns.len() as int, at) && (at + run.settle <= now
                    || run.settle == 0)
        }),
{
    let count = (turns.len() - 1) as nat;
    let last = turns[count as int];
    lemma_output_is_remembered(run, options.goal(), turns, count);
    let before = run.after_turns(options.goal(), turns, count).noted(last.chunk, last.at);
    lemma_observation_finishes_with_a_reason(before, options, last.now, last.visible);
    if last.chunk == Chunk::Closed {
        assert(turns[count as int].chunk == Chunk::Closed);
    } else if last.now < run.deadline && !before.closed && before.last_chunk != Some(
        Chunk::Closed,
    ) {
        let at = before.last_output->0;
        if last.chunk == Chunk::Output {
            lemma_noted_output(turns, count as int);
        } else {
            lemma_quiet_turn(turns, count as int, at);
        }
        assert(last_came_at(turns, turns.len() as int, at));
    }
}

/// After input was sent, its effect is awaited: output is waited for first of all, and an observation ends
/// only once the terminal was closed, the deadline has passed, or output came after the input and
/// then none for the settling time.
pub proof fn lemma_observation_awaits_the_effect_of_input(
    run: Run,
    options: Options,
    now: u128,
    visible: Seq<char>,
    turns: Seq<Turn>,
)
    requires
        run.stepped(options.goal(), now, visible).1 is Send,
    ensures
        ({
            let sent = run.stepped(options.goal(), now, visible).0;
            &&& forall|later: u128, shown: Seq<char>|
                (#[trigger] sent.stepped(options.goal(), later, shown)).1 is Receive
            &&& turns.len() > 0 && (forall|k: nat|
                k < turns.len() - 1 ==> (#[trigger] sent.after_turns(
                    options.goal(),
                    turns,
                    k,
                )).turned(options.goal(), turns[k as int]).1 is Receive) && sent.after_turns(
                options.goal(),
                turns,
                (turns.len() - 1) as nat,
            ).turned(options.goal(), turns.last()).1 is Finish ==> {
                ||| turns.last().now >= run.deadline
                ||| exists|k: int|
                    0 <= k < turns.len() && (#[trigger] turns[k]).chunk == Chunk::Closed
                ||| exists|at: u128|
                    #[trigger] last_came_at(turns, turns.len() as int, at) && (at + run.settle
                        <= turns.last().now || run.settle == 0)
            }
        }),
{
    let sent = run.stepped(options.goal(), now, visible).0;
    if turns.len() > 0 && (forall|k: nat|
        k < turns.len() - 1 ==> (#[trigger] sent.after_turns(options.goal(), turns, k)).turned(
            options.goal(),
            turns[k as int],
        ).1 is Receive) && sent.after_turns(
        options.goal(),
        turns,
        (turns.len() - 1) as nat,
    ).turned(options.goal(), turns.last()).1 is Finish {
        lemma_turns_settle(sent, options, turns);
    }
}

/// Without input, an observation ends only once the terminal was closed, the deadline has passed, or output
/// came and then none for the settling time.
pub proof fn lemma_observation_awaits_a_settled_screen(run: Run, options: Options, turns: Seq<Turn>)
    requires
        run.phase == Phase::Delay,
        run.last_output is None,
        run.last_chunk is None,
        !run.closed,
        turns.len() > 0,
        forall|k: nat|
            k < turns.len() - 1 ==> (#[trigger] run.after_turns(options.goal(), turns, k)).turned(
                options.goal(),
                turns[k as int],
            ).1 is Receive,
        run.after_turns(options.goal(), turns, (turns.len() - 1) as nat).turned(
            options.goal(),
            turns.last(),
        ).1 is Finish,
    ensures
        ({
            ||| turns.last().now >= run.deadline
            ||| exists|k: int| 0 <= k < turns.len() && (#[trigger] turns[k]).chunk == Chunk::Closed
            ||| exists|at: u128|
                #[trigger] last_came_at(turns, turns.len() as int, at) && (at + run.settle
                    <= turns.last().now || run.settle == 0)
        }),
{
    lemma_turns_settle(run, options, turns);
}

/// What an observed application's pipes brought.
#[derive(Clone, Copy, Debug, PartialEq, Eq, Structural)]
pub enum PipeEvent {
    Output,
    StreamClosed,
    Disconnected,
    Timeout,
}

/// What to do next with an application whose output is piped.
#[derive(Clone, Copy, Debug, PartialEq, Eq, Structural)]
pub enum PipeNext {
    /// Wait at most so many nanoseconds for output.
    Receive { timeout: u128 },
    /// Nothing more is waited for.
    Finish,
}

/// The observation of an application through its two output pipes. Instants are nanoseconds since
/// it was launched.
#[derive(Clone, Copy, Debug, PartialEq, Eq, Structural)]
pub struct PipeRun {
    pub deadline: u128,
    pub open_streams: usize,
    pub exited: bool,
}

impl PipeRun {
    /// What to do at `now`: wait for output until both pipes are closed and the application has
    /// exited, but not past the deadline.
    pub open spec fn stepped(self, now: u128) -> PipeNext {
        if (self.open_streams == 0 && self.exited) || now >= self.deadline {
            PipeNext::Finish
        } else if self.deadline - now < CHUNK_TIMEOUT {
            PipeNext::Receive { timeout: (self.deadline - now) as u128 }
        } else {
            PipeNext::Receive { timeout: CHUNK_TIMEOUT }
        }
    }

    /// Starts observing an application that was launched at zero.
    pub fn start(options: &Options) -> (run: PipeRun)
        ensures
            run == (PipeRun { deadline: options.deadline, open_streams: 2, exited: false }),
    {
        PipeRun { deadline: options.deadline, open_streams: 2, exited: false }
    }

    /// Decides what to do at `now`.
    pub fn step(&self, now: u128) -> (next: PipeNext)
        ensures
            next == self.stepped(now),
    {
        if (self.open_streams == 0 && self.exited) || now >= self.deadline {
            return PipeNext::Finish;
        }
        let left: u128 = self.deadline - now;
        PipeNext::Receive {
            timeout: if left < CHUNK_TIMEOUT {
                left
            } else {
                CHUNK_TIMEOUT
            },
        }
    }

    /// Notes what the pipes brought, and whether the application has exited by now.
    pub fn note(&mut self, event: PipeEvent, exited: bool)
        ensures
            *final(self) == (PipeRun {
                deadline: old(self).deadline,
                open_streams: match event {
                    PipeEvent::StreamClosed => if old(self).open_streams == 0 {
                        0usize
                    } else {
                        (old(self).open_streams - 1) as usize
                    },
                    PipeEvent::Disconnected => 0usize,
                    _ => old(self).open_streams,
                },
                exited: old(self).exited || exited,
            }),
    {
        match event {
            PipeEvent::StreamClosed => {
                self.open_streams = self.open_streams.saturating_sub(1);
            },
            PipeEvent::Disconnected => {
                self.open_streams = 0;
            },
            _ => {},
        }
        self.exited = self.exited || exited;
    }
}

/// Piped output is awaited exactly until both pipes are closed and the application has exited, or the
/// deadline has passed: 20 ms at a time, and never past the deadline.
pub proof fn lemma_pipes_are_read_to_the_end(run: PipeRun, now: u128)
    ensures
        run.stepped(now) is Finish <==> (run.open_streams == 0 && run.exited) || now
            >= run.deadline,
        run.stepped(now) matches PipeNext::Receive { timeout } ==> if now + 20_000_000
            <= run.deadline {
            timeout == 20_000_000
        } else {
            now + timeout == run.deadline
        },
{
}

/// Keeps a chunk of piped output: normalized, and within the limit. Hands back the normalized
/// bytes for the terminal.
pub fn keep_piped(
    normalizer: &mut LinefeedNormalizer,
    ansi: &mut Vec<u8>,
    bytes: &[u8],
    max_bytes: usize,
) -> (result: Result<Vec<u8>, ShotError>)
    ensures
        final(normalizer).previous_was_cr == ends_in_cr(bytes@, old(normalizer).previous_was_cr),
        ({
            let output = normalized(bytes@, old(normalizer).previous_was_cr);
            &&& result is Ok <==> old(ansi)@.len() + output.len() <= max_bytes
            &&& result matches Ok(kept) ==> kept@ == output && final(ansi)@ == old(ansi)@ + output
            &&& result matches Err(error) ==> final(ansi)@ == old(ansi)@ && error
                == (ShotError::OutputTooLong { max_bytes })
        }),
{
    let output = normalizer.normalize(bytes);
    match retain(ansi, output.as_slice(), max_bytes) {
        Ok(()) => Ok(output),
        Err(error) => Err(error),
    }
}

/// Checks what is observed before anything is launched.
pub fn check_launch(command: &Vec<String>, options: &Options) -> (result: Result<(), ShotError>)
    ensures
        result is Ok <==> command@.len() > 0 && options.rows != 0 && options.cols != 0,
        result matches Err(error) ==> error == if command@.len() == 0 {
            ShotError::NoCommand
        } else {
            ShotError::ZeroGeometry
        },
{
    if command.len() == 0 {
        return Err(ShotError::NoCommand);
    }
    validate_geometry(options.rows, options.cols)
}

/// The shot of a terminal that shows `frame` and the text `visible`. The text that was waited for
/// must show.
pub fn take_shot(options: &Options, frame: Frame, visible: &str, ansi: Vec<u8>) -> (result: Result<
    Shot,
    ShotError,
>)
    ensures
        result is Ok <==> options.goal().shown(visible@),
        result matches Ok(shot) ==> shot.frame == frame && shot.ansi == ansi,
        result matches Err(error) ==> error is PatternMissing && error->pattern@
            == options.wait_for->0@,
{
    if let Some(pattern) = &options.wait_for {
        if !text::text_contains(visible, pattern.as_str()) {
            return Err(ShotError::PatternMissing { pattern: pattern.clone() });
        }
    }
    Ok(Shot { frame, ansi })
}

/// Normalizing one byte keeps it. Only a line feed that does not follow a carriage return gets one.
pub proof fn lemma_normalizing_adds_only_carriage_returns(byte: u8, previous_was_cr: bool)
    ensures
        normalized(seq![byte], previous_was_cr) == if byte == 10 && !previous_was_cr {
            seq![13u8, 10u8]
        } else {
            seq![byte]
        },
        ends_in_cr(seq![byte], previous_was_cr) == (byte == 13),
        normalized(Seq::<u8>::empty(), previous_was_cr).len() == 0,
{
    let one = seq![byte];
    assert(one.drop_last() =~= Seq::<u8>::empty());
    assert(normalized(one.drop_last(), previous_was_cr) =~= Seq::<u8>::empty());
    if byte == 10 && !previous_was_cr {
        assert(normalized(one, previous_was_cr) =~= seq![13u8, 10u8]);
    } else {
        assert(normalized(one, previous_was_cr) =~= seq![byte]);
    }
}

/// What is kept of bytes is their end: as many as asked for, or all of them where there are fewer.
pub proof fn lemma_last_bytes_are_the_end(bytes: Seq<u8>, count: nat)
    ensures
        ({
            let kept = last_bytes(bytes, count as int);
            &&& kept.len() == if bytes.len() < count {
                bytes.len()
            } else {
                count
            }
            &&& bytes == bytes.take(bytes.len() - kept.len()) + kept
        }),
{
    let kept = last_bytes(bytes, count as int);
    assert(bytes =~= bytes.take(bytes.len() - kept.len()) + kept);
}

/// An observation waits for the text that its options name, sends the input that they hold, and is
/// delayed if they say so.
pub proof fn lemma_goal_is_what_the_options_say(options: Options, visible: Seq<char>)
    ensures
        options.goal().shown(visible) <==> (options.wait_for matches Some(pattern) ==> text::occurs(
            visible,
            pattern@,
        )),
        options.goal().has_input <==> options.input@.len() > 0,
        options.goal().delayed <==> options.initial_delay > 0,
        options.goal().wait_for is Some <==> options.wait_for is Some,
{
}

/// Terminal input has failed because the terminal was closed exactly if the pipe is broken, there is
/// no connection, the end was met, or the system says input/output error.
pub proof fn lemma_closed_terminals_are_known(cause: IoCause)
    ensures
        closes_input(cause) <==> cause.kind is BrokenPipe || cause.kind is NotConnected
            || cause.kind is UnexpectedEof || cause.os_code == Some(5i32),
{
}

/// An application that ends is looked at every 10 ms until it has exited or time is up.
pub proof fn lemma_teardown_waits_for_the_exit(teardown: Teardown, event: TeardownEvent, now: u128)
    ensures
        ({
            let next = teardown.after(event, now);
            &&& event is Exited ==> next is Done
            &&& event is Running ==> next == TeardownNext::Rest(10_000_000)
            &&& event is Killed || event is Rested ==> if now < teardown.deadline {
                next is Look
            } else {
                next is Done
            }
        }),
{
}

/// An operating system command that an application writes is read as a whole, however it ends.
pub proof fn lemma_command_is_scanned(content: Seq<u8>)
    requires
        terminal_theme::unbroken(content),
    ensures
        scan_queries(seq![0x1bu8, 0x5du8] + content + seq![0x07u8], 0) == (
            content_queries(content),
            Seq::<u8>::empty(),
        ),
        scan_queries(seq![0x1bu8, 0x5du8] + content + seq![0x1bu8, 0x5cu8], 0) == (
            content_queries(content),
            Seq::<u8>::empty(),
        ),
{
    lemma_terminated_command_is_scanned(content, seq![0x07u8]);
    lemma_terminated_command_is_scanned(content, seq![0x1bu8, 0x5cu8]);
}

proof fn lemma_terminated_command_is_scanned(content: Seq<u8>, terminator: Seq<u8>)
    requires
        terminal_theme::unbroken(content),
        terminator == seq![0x07u8] || terminator == seq![0x1bu8, 0x5cu8],
    ensures
        scan_queries(seq![0x1bu8, 0x5du8] + content + terminator, 0) == (
            content_queries(content),
            Seq::<u8>::empty(),
        ),
{
    let bytes = seq![0x1bu8, 0x5du8] + content + terminator;
    let end = 2 + content.len() as int;
    assert(bytes[0] == 0x1b && bytes[1] == 0x5d);
    terminal_theme::lemma_string_end_first(bytes, 2);
    assert(bytes[end] == terminator[0]);
    assert(terminator.len() == 2 ==> bytes[end + 1] == terminator[1]);
    assert(terminal_theme::terminator_len(bytes, end) == terminator.len());
    assert forall|i: int| 2 <= i < end implies #[trigger] terminal_theme::terminator_len(bytes, i)
        == 0 by {
        assert(bytes[i] == content[i - 2]);
    }
    match terminal_theme::string_end(bytes, 2) {
        None => {
            assert(terminal_theme::terminator_len(bytes, end) == 0);
        },
        Some((found, length)) => {
            if found < end {
                assert(terminal_theme::terminator_len(bytes, found) == 0);
            }
            if found > end {
                assert(terminal_theme::terminator_len(bytes, end) == 0);
            }
            assert(found == end && length == terminator.len());
        },
    }
    assert(bytes.subrange(2, end) =~= content);
    assert(scan_queries(bytes, bytes.len() as int).0 =~= Seq::<ColorQuery>::empty());
    assert(content_queries(content) + Seq::<ColorQuery>::empty() =~= content_queries(content));
}

/// A question for a color is understood: for the color of text, for the color behind it, and for
/// each color of the palette.
pub proof fn lemma_color_questions_are_understood(slot: u8)
    ensures
        content_queries(vstd::utf8::encode_utf8("10;?"@)) == seq![ColorQuery::Foreground],
        content_queries(vstd::utf8::encode_utf8("11;?"@)) == seq![ColorQuery::Background],
        content_queries(
            vstd::utf8::encode_utf8("4;"@ + text::decimal_text(slot as nat) + ";?"@),
        ) == seq![ColorQuery::Palette(slot)],
{
    reveal_strlit("10;?");
    reveal_strlit("11;?");
    reveal_strlit("10");
    reveal_strlit("11");
    reveal_strlit("4");
    reveal_strlit("4;");
    reveal_strlit(";?");
    reveal_strlit("?");
    assert("10"@[1] == '0' && "11"@[1] == '1');
    text::lemma_split_one("?"@, ';');
    text::lemma_split_first("10"@, ';', "?"@);
    text::lemma_split_first("11"@, ';', "?"@);
    assert("10;?"@ =~= "10"@.push(';') + "?"@);
    assert("11;?"@ =~= "11"@.push(';') + "?"@);
    vstd::utf8::encode_utf8_valid_utf8("10;?"@);
    vstd::utf8::encode_utf8_decode_utf8("10;?"@);
    vstd::utf8::encode_utf8_valid_utf8("11;?"@);
    vstd::utf8::encode_utf8_decode_utf8("11;?"@);
    assert(text::split("10;?"@, ';') =~= seq!["10"@, "?"@]);
    assert(text::split("11;?"@, ';') =~= seq!["11"@, "?"@]);
    let number = text::decimal_text(slot as nat);
    let content = "4;"@ + number + ";?"@;
    text::lemma_decimal_round_trip(slot as nat);
    lemma_number_is_one_field(slot as nat);
    text::lemma_split_first(number, ';', "?"@);
    text::lemma_split_first("4"@, ';', number.push(';') + "?"@);
    assert(content =~= "4"@.push(';') + (number.push(';') + "?"@));
    vstd::utf8::encode_utf8_valid_utf8(content);
    vstd::utf8::encode_utf8_decode_utf8(content);
    let fields = text::split(content, ';');
    assert(fields =~= seq!["4"@, number, "?"@]);
    assert("4"@.len() != "10"@.len() && "4"@.len() != "11"@.len());
    reveal_with_fuel(palette_queries, 2);
    assert(palette_queries(fields, 3) =~= Seq::<ColorQuery>::empty());
    assert(palette_queries(fields, 1) =~= seq![ColorQuery::Palette(slot)]);
}

proof fn lemma_number_is_one_field(value: nat)
    ensures
        !text::decimal_text(value).contains(';'),
    decreases value,
{
    if value >= 10 {
        lemma_number_is_one_field(value / 10);
        let front = text::decimal_text(value / 10);
        assert forall|i: int| 0 <= i < text::decimal_text(value).len() implies text::decimal_text(
            value,
        )[i] != ';' by {
            if i < front.len() {
                assert(front[i] != ';');
            }
        }
    }
}

/// A terminal answers each color with that color: text and background with its own, a color of the
/// palette with its own where it has sixteen of them and with the fixed one beyond. Each part of a
/// color is told in four digits, as 257 times its value.
pub proof fn lemma_questions_are_answered(query: ColorQuery, theme: terminal_theme::ThemeView)
    ensures
        ({
            let color = match query {
                ColorQuery::Foreground => theme.foreground,
                ColorQuery::Background => theme.background,
                ColorQuery::Palette(index) => if index < 16 {
                    theme.ansi[index as int]
                } else {
                    frame::palette_color(index as int)
                },
            };
            let told = color_text(color);
            let value = |i: int|
                if told[i] <= '9' {
                    told[i] as int - '0' as int
                } else {
                    told[i] as int - 'a' as int + 10
                };
            let number = |i: int|
                4096 * value(i) + 256 * value(i + 1) + 16 * value(i + 2) + value(i + 3);
            &&& query_answer(query, theme) == "\x1b]"@ + (match query {
                ColorQuery::Foreground => "10"@,
                ColorQuery::Background => "11"@,
                ColorQuery::Palette(index) => "4;"@ + text::decimal_text(index as nat),
            }) + ";"@ + told + "\x1b\\"@
            &&& told.len() == 18
            &&& told.take(4) == "rgb:"@
            &&& number(4) == 257 * color.r
            &&& told[8] == '/'
            &&& number(9) == 257 * color.g
            &&& told[13] == '/'
            &&& number(14) == 257 * color.b
        }),
{
    reveal_strlit("rgb:");
    reveal_strlit(";rgb:");
    reveal_strlit(";");
    reveal_strlit("/");
    let color = match query {
        ColorQuery::Foreground => theme.foreground,
        ColorQuery::Background => theme.background,
        ColorQuery::Palette(index) => if index < 16 {
            theme.ansi[index as int]
        } else {
            frame::palette_color(index as int)
        },
    };
    lemma_color_text(color);
    assert(color_text(color).take(4) =~= "rgb:"@);
    assert(";rgb:"@ =~= ";"@ + "rgb:"@);
    let selector = match query {
        ColorQuery::Foreground => "10"@,
        ColorQuery::Background => "11"@,
        ColorQuery::Palette(index) => "4;"@ + text::decimal_text(index as nat),
    };
    assert(query_answer(query, theme) =~= "\x1b]"@ + selector + ";"@ + color_text(color)
        + "\x1b\\"@);
}

/// Questions are answered in their order, each of them once.
pub proof fn lemma_answers_come_in_order(
    left: Seq<ColorQuery>,
    right: Seq<ColorQuery>,
    theme: terminal_theme::ThemeView,
    query: ColorQuery,
)
    ensures
        query_answers(left + right, theme) == query_answers(left, theme) + query_answers(
            right,
            theme,
        ),
        query_answers(seq![query], theme) == vstd::utf8::encode_utf8(query_answer(query, theme)),
    decreases right.len(),
{
    assert(seq![query].drop_last() =~= Seq::<ColorQuery>::empty());
    assert(query_answers(seq![query].drop_last(), theme) =~= Seq::<u8>::empty());
    assert(query_answers(seq![query], theme) =~= vstd::utf8::encode_utf8(
        query_answer(query, theme),
    ));
    if right.len() == 0 {
        assert(left + right =~= left);
        assert(query_answers(left, theme) + query_answers(right, theme) =~= query_answers(
            left,
            theme,
        ));
    } else {
        assert((left + right).drop_last() =~= left + right.drop_last());
        lemma_answers_come_in_order(left, right.drop_last(), theme, query);
        assert(query_answers(left + right, theme) =~= query_answers(left, theme) + query_answers(
            right,
            theme,
        ));
    }
}

/// A host that answers at all answers every color question, introduces itself when it is asked for
/// both default colors for the first time, and declines graphics when it is asked for them for the
/// first time. A host that does not answer is silent.
pub proof fn lemma_host_answers_what_is_asked(host: Host, output: Seq<u8>)
    ensures
        !host.enabled ==> host.answer(output).len() == 0,
        host.enabled ==> ({
            let seen = host.probe@ + output;
            let asks_colors = text::occurs(
                seen,
                vstd::utf8::encode_utf8("\x1b]10;?\x07\x1b]11;?\x07"@),
            );
            let asks_graphics = text::occurs(seen, vstd::utf8::encode_utf8("\x1b_Gi=31337"@));
            host.answer(output) == query_answers(
                scan_queries(host.color_probe@ + output, 0).0,
                host.theme@,
            ) + (if asks_colors && !host.opentui_replied {
                vstd::utf8::encode_utf8(host_introduction(host.pixel_height, host.pixel_width))
            } else {
                Seq::empty()
            }) + (if asks_graphics && !host.kitty_replied {
                vstd::utf8::encode_utf8("\x1b_Gi=31337;EINVAL:graphics unavailable\x1b\\"@)
            } else {
                Seq::empty()
            })
        }),
{
}

/// What a host has answered: whether it has introduced itself and declined graphics is remembered
/// for good, and what it keeps of the output is enough for questions that come in pieces.
pub proof fn lemma_host_remembers(host: Host, before: Host, output: Seq<u8>)
    requires
        host.has_answered(before, output),
        before.enabled,
    ensures
        host.enabled,
        before.opentui_replied ==> host.opentui_replied,
        before.kitty_replied ==> host.kitty_replied,
        text::occurs(
            before.probe@ + output,
            vstd::utf8::encode_utf8("\x1b]10;?\x07\x1b]11;?\x07"@),
        ) ==> host.opentui_replied,
        text::occurs(before.probe@ + output, vstd::utf8::encode_utf8("\x1b_Gi=31337"@))
            ==> host.kitty_replied,
        host.theme == before.theme,
        host.probe@ == last_bytes(before.probe@ + output, 64),
{
}

/// An application finds a terminal with all colors in its environment, unless something else is set
/// explicitly.
pub proof fn lemma_terminal_is_told(options: Options, inherited: Option<Seq<char>>)
    ensures
        environment::value_in(options.env@, "TERM"@) is None ==> environment::value_after(
            environment_changes(options),
            "TERM"@,
            inherited,
        ) == Some("xterm-256color"@),
        environment::value_in(options.env@, "COLORTERM"@) is None ==> environment::value_after(
            environment_changes(options),
            "COLORTERM"@,
            inherited,
        ) == Some("truecolor"@),
{
    reveal_strlit("TERM");
    reveal_strlit("COLORTERM");
    reveal_strlit("NO_COLOR");
    reveal_strlit("FORCE_COLOR");
    reveal_strlit("CLICOLOR");
    reveal_strlit("CLICOLOR_FORCE");
    let early = terminal_changes(options.inherit_env);
    let before = early + color_changes(options.color);
    environment::lemma_set_all(before, options.env@, "TERM"@, inherited);
    environment::lemma_set_all(before, options.env@, "COLORTERM"@, inherited);
    assert("COLORTERM"@.len() == 9 && "TERM"@.len() == 4);
    lemma_colors_leave_the_rest(early, options.color, "TERM"@, inherited);
    lemma_colors_leave_the_rest(early, options.color, "COLORTERM"@, inherited);
    reveal_with_fuel(environment::value_after, 3);
    assert(early.last() == environment::set_to("COLORTERM"@, "truecolor"@));
    assert(early.drop_last().last() == environment::set_to("TERM"@, "xterm-256color"@));
}

proof fn lemma_colors_leave_the_rest(
    early: Seq<environment::EnvChange>,
    color: ColorMode,
    key: Seq<char>,
    inherited: Option<Seq<char>>,
)
    requires
        key != "NO_COLOR"@,
        key != "FORCE_COLOR"@,
        key != "CLICOLOR"@,
        key != "CLICOLOR_FORCE"@,
    ensures
        environment::value_after(early + color_changes(color), key, inherited)
            == environment::value_after(early, key, inherited),
{
    let all = early + color_changes(color);
    if color is Auto {
        assert(all =~= early);
    } else {
        reveal_with_fuel(environment::value_after, 5);
        let third = all.drop_last();
        let second = third.drop_last();
        let first = second.drop_last();
        assert(first.drop_last() =~= early);
        assert(all.last() == color_changes(color)[3]);
        assert(third.last() == color_changes(color)[2]);
        assert(second.last() == color_changes(color)[1]);
        assert(first.last() == color_changes(color)[0]);
    }
}

/// Every other variable is what the application would have anyway: what is set explicitly, or else
/// what it inherits, if it inherits anything.
pub proof fn lemma_other_variables_are_inherited(
    options: Options,
    key: Seq<char>,
    inherited: Option<Seq<char>>,
)
    requires
        key != "TERM"@,
        key != "COLORTERM"@,
        key != "NO_COLOR"@,
        key != "FORCE_COLOR"@,
        key != "CLICOLOR"@,
        key != "CLICOLOR_FORCE"@,
    ensures
        environment::value_after(environment_changes(options), key, inherited)
            == match environment::value_in(options.env@, key) {
            Some(value) => Some(value),
            None => if options.inherit_env {
                inherited
            } else {
                None
            },
        },
{
    let early = terminal_changes(options.inherit_env);
    environment::lemma_set_all(early + color_changes(options.color), options.env@, key, inherited);
    lemma_colors_leave_the_rest(early, options.color, key, inherited);
    reveal_with_fuel(environment::value_after, 4);
    assert(early.last() == environment::set_to("COLORTERM"@, "truecolor"@));
    assert(early.drop_last().last() == environment::set_to("TERM"@, "xterm-256color"@));
    if options.inherit_env {
        assert(early.drop_last().drop_last() =~= Seq::<environment::EnvChange>::empty());
    } else {
        assert(early.drop_last().drop_last() =~= seq![environment::EnvChange::Clear]);
    }
}

/// Colors are on for an application launched with them: unless a variable is set explicitly, there is
/// no `NO_COLOR` and colors are forced.
pub proof fn lemma_always_colors(options: Options, inherited: Option<Seq<char>>)
    requires
        options.color == ColorMode::Always,
    ensures
        environment::value_in(options.env@, "NO_COLOR"@) is None ==> environment::value_after(
            environment_changes(options),
            "NO_COLOR"@,
            inherited,
        ) is None,
        environment::value_in(options.env@, "FORCE_COLOR"@) is None ==> environment::value_after(
            environment_changes(options),
            "FORCE_COLOR"@,
            inherited,
        ) == Some("1"@),
        environment::value_in(options.env@, "CLICOLOR"@) is None ==> environment::value_after(
            environment_changes(options),
            "CLICOLOR"@,
            inherited,
        ) == Some("1"@),
        environment::value_in(options.env@, "CLICOLOR_FORCE"@) is None
            ==> environment::value_after(
            environment_changes(options),
            "CLICOLOR_FORCE"@,
            inherited,
        ) == Some("1"@),
{
    reveal_strlit("NO_COLOR");
    reveal_strlit("FORCE_COLOR");
    reveal_strlit("CLICOLOR");
    reveal_strlit("CLICOLOR_FORCE");
    let before = terminal_changes(options.inherit_env) + color_changes(options.color);
    environment::lemma_set_all(before, options.env@, "NO_COLOR"@, inherited);
    environment::lemma_set_all(before, options.env@, "FORCE_COLOR"@, inherited);
    environment::lemma_set_all(before, options.env@, "CLICOLOR"@, inherited);
    environment::lemma_set_all(before, options.env@, "CLICOLOR_FORCE"@, inherited);
    reveal_with_fuel(environment::value_after, 5);
    let third = before.drop_last();
    let second = third.drop_last();
    let first = second.drop_last();
    assert(before.last() == environment::set_to("CLICOLOR_FORCE"@, "1"@));
    assert(third.last() == environment::set_to("CLICOLOR"@, "1"@));
    assert(second.last() == environment::set_to("FORCE_COLOR"@, "1"@));
    assert(first.last() == (environment::EnvChange::Remove { key: "NO_COLOR"@ }));
    assert("CLICOLOR_FORCE"@.len() == 14 && "FORCE_COLOR"@.len() == 11);
    assert("CLICOLOR"@[0] == 'C' && "NO_COLOR"@[0] == 'N');
}

/// The introduction of the host ends with its size in pixels, the height first, and its device
/// attributes.
pub proof fn lemma_host_introduces_itself(pixel_height: u32, pixel_width: u32)
    ensures
        ("\x1bP>|termctrl "@ + VERSION@).is_prefix_of(host_introduction(pixel_height, pixel_width)),
        (text::decimal_text(pixel_height as nat) + ";"@ + text::decimal_text(pixel_width as nat)
            + "t\x1b[?6c"@).is_suffix_of(host_introduction(pixel_height, pixel_width)),
{
    let whole = host_introduction(pixel_height, pixel_width);
    let name = "\x1bP>|termctrl "@ + VERSION@;
    let size = text::decimal_text(pixel_height as nat) + ";"@ + text::decimal_text(
        pixel_width as nat,
    ) + "t\x1b[?6c"@;
    assert(whole.subrange(0, name.len() as int) =~= name);
    assert(whole.subrange(whole.len() - size.len(), whole.len() as int) =~= size);
}

/// A host that is not to answer stays as it is, and no answer changes the size or the colors of one.
pub proof fn lemma_host_that_is_off_stays(host: Host, before: Host, output: Seq<u8>)
    requires
        host.has_answered(before, output),
    ensures
        !before.enabled ==> host == before,
        (host.pixel_width, host.pixel_height) == (before.pixel_width, before.pixel_height),
        host.theme == before.theme,
{
}

} // verus!
