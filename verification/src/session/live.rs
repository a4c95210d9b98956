//! One running terminal application: what is kept of its output, when it counts as idle or ended,
//! and how it is brought to an end.
use crate::recording::{Entry, InputOrigin, Writer};
use crate::session::{
    CaptureReason, CaptureResult, ProcessExit, SessionLaunch, SessionState, SessionStatus,
};
use crate::frame::Frame;
use crate::shot::{self, Host, Options, Shot, ShotError};
use crate::terminal_theme::TerminalTheme;
use crate::text;
use vstd::prelude::*;

verus! {

/// How many chunks of output are taken at a time.
pub const OUTPUT_BATCH: usize = 64;

/// How long a capture waits for the first output, in nanoseconds.
pub const INITIAL_OUTPUT_GRACE: u128 = 50_000_000;

/// How long to rest between two looks at an application, in nanoseconds.
pub const REST: u128 = 10_000_000;

/// How long output may stay open after the application has exited before what is left of its
/// process group is killed, in nanoseconds.
pub const KILL_AFTER: u128 = 50_000_000;

/// How long output may stay open after the application has exited before the session counts as
/// ended, in nanoseconds.
pub const DRAIN_LIMIT: u128 = 1_000_000_000;

/// Why a live session refuses or gives up.
#[derive(Debug)]
pub enum LiveError {
    Exited,
    EndedBeforeText { text: String },
    TextTimeout { text: String },
    SettleTimeout,
    NotRecorded,
}

impl LiveError {
    /// What the error says.
    pub open spec fn says(&self) -> Seq<char> {
        match *self {
            LiveError::Exited => "session command has exited"@,
            LiveError::EndedBeforeText { text } => "session ended before visible terminal included "@
                + text::quoted_text(text@),
            LiveError::TextTimeout { text } => "timed out waiting for visible terminal text "@
                + text::quoted_text(text@),
            LiveError::SettleTimeout => "timed out waiting for terminal output to settle"@,
            LiveError::NotRecorded => "session was not started with --record"@,
        }
    }

    /// Writes out the error.
    pub fn message(&self) -> (message: String)
        ensures
            message@ == self.says(),
    {
        match self {
            LiveError::Exited => "session command has exited".to_owned(),
            LiveError::EndedBeforeText { text } => {
                let mut message = "session ended before visible terminal included ".to_owned();
                message.append(text::quoted(text.as_str()).as_str());
                message
            },
            LiveError::TextTimeout { text } => {
                let mut message = "timed out waiting for visible terminal text ".to_owned();
                message.append(text::quoted(text.as_str()).as_str());
                message
            },
            LiveError::SettleTimeout => {
                "timed out waiting for terminal output to settle".to_owned()
            },
            LiveError::NotRecorded => "session was not started with --record".to_owned(),
        }
    }
}

/// `now`, and `delay` later, as far as the clock reaches.
pub open spec fn later(now: u128, delay: u128) -> u128 {
    if now + delay > u128::MAX {
        u128::MAX
    } else {
        (now + delay) as u128
    }
}

/// How much time has passed since `start`.
pub open spec fn since(start: u128, now: u128) -> u128 {
    if now < start {
        0
    } else {
        (now - start) as u128
    }
}

/// Where the life of an application stands. Times are in nanoseconds of one clock.
#[derive(Clone, Copy, Debug, PartialEq, Eq, Structural)]
pub struct Life {
    /// The application's process group, while it may still have to be killed.
    pub process_group: Option<i32>,
    pub output_closed: bool,
    pub stopped: bool,
    /// Whether the application itself has exited.
    pub exited: bool,
    pub drain_started: Option<u128>,
    /// Whether all that is to be expected of an exited application has been read.
    pub exit_ready: bool,
    pub last_output: Option<u128>,
}

/// What a look at an application that may have exited shows.
#[derive(Clone, Copy, Debug, PartialEq, Eq, Structural)]
pub struct ExitCheck {
    /// A process group to kill.
    pub kill: Option<i32>,
    pub ended: bool,
}

impl Life {
    /// Whether the application still takes input.
    pub open spec fn takes_input(self) -> bool {
        !self.exited && !self.stopped
    }

    /// How long output has been awaited after the application exited.
    pub open spec fn draining_for(self, now: u128) -> u128 {
        match self.drain_started {
            Some(started) => since(started, now),
            None => 0,
        }
    }

    /// The life after a look for its end, and what that look shows.
    pub open spec fn checked(self, now: u128) -> (Life, ExitCheck) {
        if !self.exited {
            (self, ExitCheck { kill: None, ended: false })
        } else if self.output_closed {
            (
                Life { process_group: None, exit_ready: true, ..self },
                ExitCheck { kill: self.process_group, ended: true },
            )
        } else {
            let kill = self.draining_for(now) >= KILL_AFTER;
            let ready = self.exit_ready || self.draining_for(now) >= DRAIN_LIMIT;
            (
                Life {
                    process_group: if kill {
                        None
                    } else {
                        self.process_group
                    },
                    exit_ready: ready,
                    ..self
                },
                ExitCheck {
                    kill: if kill {
                        self.process_group
                    } else {
                        None
                    },
                    ended: ready,
                },
            )
        }
    }

    /// The life of an application that was just started.
    pub fn start(process_group: Option<i32>) -> (life: Life)
        ensures
            life == (Life {
                process_group,
                output_closed: false,
                stopped: false,
                exited: false,
                drain_started: None,
                exit_ready: false,
                last_output: None,
            }),
    {
        Life {
            process_group,
            output_closed: false,
            stopped: false,
            exited: false,
            drain_started: None,
            exit_ready: false,
            last_output: None,
        }
    }

    /// Notes that no more output will come.
    pub fn close_output(&mut self)
        ensures
            *final(self) == (Life { output_closed: true, ..*old(self) }),
    {
        self.output_closed = true;
    }

    /// Looks for the end of the application, after its exit was asked for and waiting output was
    /// taken. Once it has exited, output that stays open is awaited for a while: what is left of
    /// its process group is killed soon, and the wait itself is bounded.
    pub fn has_exited(&mut self, now: u128) -> (check: ExitCheck)
        ensures
            (*final(self), check) == old(self).checked(now),
    {
        if !self.exited {
            return ExitCheck { kill: None, ended: false };
        }
        if self.output_closed {
            let kill = self.process_group;
            self.process_group = None;
            self.exit_ready = true;
            return ExitCheck { kill, ended: true };
        }
        let elapsed: u128 = match self.drain_started {
            Some(started) => elapsed_since(started, now),
            None => 0,
        };
        let mut kill: Option<i32> = None;
        if elapsed >= KILL_AFTER {
            kill = self.process_group;
            self.process_group = None;
        }
        if elapsed >= DRAIN_LIMIT {
            self.exit_ready = true;
        }
        ExitCheck { kill, ended: self.exit_ready }
    }
}

fn elapsed_since(start: u128, now: u128) -> (elapsed: u128)
    ensures
        elapsed == since(start, now),
{
    if now < start {
        0
    } else {
        now - start
    }
}

fn moment_after(now: u128, delay: u128) -> (moment: u128)
    ensures
        moment == later(now, delay),
{
    match now.checked_add(delay) {
        Some(moment) => moment,
        None => u128::MAX,
    }
}

/// A session that has ended stays ended.
pub proof fn lemma_end_is_final(life: Life, now: u128, later: u128)
    requires
        life.checked(now).1.ended,
    ensures
        life.checked(now).0.checked(later).1.ended,
{
}

/// A process group is killed at most once by the looks for the end, and only after the
/// application itself has exited.
pub proof fn lemma_group_is_killed_once(life: Life, now: u128, later: u128)
    requires
        life.checked(now).1.kill is Some,
    ensures
        life.exited,
        life.checked(now).1.kill == life.process_group,
        life.checked(now).0.process_group is None,
        life.checked(now).0.checked(later).1.kill is None,
{
}

/// An application that has exited counts as ended after a bounded wait, even if its output stays
/// open.
pub proof fn lemma_exit_is_bounded(life: Life, now: u128)
    requires
        life.exited,
        life.output_closed || life.draining_for(now) >= DRAIN_LIMIT,
    ensures
        life.checked(now).1.ended,
{
}

/// What to do while something is awaited.
#[derive(Debug)]
pub enum WaitNext {
    Done,
    Failed(LiveError),
    /// Rest, then look again.
    Rest,
}

/// What to do while an exit is awaited.
#[derive(Debug)]
pub enum ExitNext {
    /// The application has ended. A stopped one may have left no exit.
    Exited(Option<ProcessExit>),
    TimedOut,
    /// Rest, then look again.
    Rest,
}

/// What to do while bursts of input are sent.
#[derive(Clone, Copy, Debug, PartialEq, Eq, Structural)]
pub enum SendNext {
    /// Write the burst with this index.
    Write(usize),
    /// Rest for so many nanoseconds, then take waiting output.
    Rest(u128),
    Done,
}

/// Bursts of input that are sent in order, with a pause between each two.
#[derive(Clone, Copy, Debug, PartialEq, Eq, Structural)]
pub struct Sending {
    pub bursts: usize,
    pub pace: u128,
    /// How many bursts were written.
    pub written: usize,
    /// Whether a pause is due before the next burst.
    pub pause: bool,
}

impl Sending {
    /// The bursts after one more step, and what to do.
    pub open spec fn stepped(self) -> (Sending, SendNext) {
        if self.written >= self.bursts {
            (self, SendNext::Done)
        } else if self.pause {
            (Sending { pause: false, ..self }, SendNext::Rest(self.pace))
        } else {
            (
                Sending { written: (self.written + 1) as usize, pause: self.pace > 0, ..self },
                SendNext::Write(self.written),
            )
        }
    }

    /// Begins to send.
    pub fn begin(bursts: usize, pace: u128) -> (sending: Sending)
        ensures
            sending == (Sending { bursts, pace, written: 0, pause: false }),
    {
        Sending { bursts, pace, written: 0, pause: false }
    }

    /// Says what to do next.
    pub fn step(&mut self) -> (next: SendNext)
        ensures
            (*final(self), next) == old(self).stepped(),
    {
        if self.written >= self.bursts {
            return SendNext::Done;
        }
        if self.pause {
            self.pause = false;
            return SendNext::Rest(self.pace);
        }
        let index: usize = self.written;
        self.written = index + 1;
        self.pause = self.pace > 0;
        SendNext::Write(index)
    }
}

/// The pauses come between the bursts: there is none before the first and none after the last.
pub proof fn lemma_pauses_separate_bursts(sending: Sending)
    requires
        sending.pause ==> sending.written > 0,
    ensures
        sending.stepped().0.pause ==> sending.stepped().0.written > 0,
        sending.stepped().1 is Rest ==> 0 < sending.written < sending.bursts,
{
}

impl Life {
    /// Whether output has settled: it is closed, or nothing came for `settle`.
    pub open spec fn settled(self, settle: u128, started: u128, now: u128) -> bool {
        self.output_closed || since(
            match self.last_output {
                Some(last) => last,
                None => started,
            },
            now,
        ) >= settle
    }

    /// Whether what is visible is quiet enough to be captured. Before the first output a little
    /// time is granted, unless no settling is asked for.
    pub open spec fn quiet(self, settle: u128, started: u128, now: u128) -> bool {
        match self.last_output {
            None => settle == 0 || since(started, now) >= if settle > INITIAL_OUTPUT_GRACE {
                settle
            } else {
                INITIAL_OUTPUT_GRACE
            },
            Some(last) => since(last, now) >= settle,
        }
    }

    /// Why the screen can be captured now, if it can.
    pub open spec fn capture_reason(
        self,
        ended: bool,
        settle: u128,
        started: u128,
        deadline: u128,
        now: u128,
    ) -> Option<CaptureReason> {
        if ended || self.stopped {
            Some(CaptureReason::Exited)
        } else if self.output_closed {
            Some(CaptureReason::OutputClosed)
        } else if self.quiet(settle, started, now) {
            Some(CaptureReason::Idle)
        } else if now >= deadline {
            Some(CaptureReason::Deadline)
        } else {
            None
        }
    }

    /// Looks whether the screen can be captured. `started` is when the capture began.
    pub fn capture(
        &self,
        ended: bool,
        settle: u128,
        started: u128,
        deadline: u128,
        now: u128,
    ) -> (reason: Option<CaptureReason>)
        ensures
            reason == self.capture_reason(ended, settle, started, deadline, now),
    {
        if ended || self.stopped {
            return Some(CaptureReason::Exited);
        }
        if self.output_closed {
            return Some(CaptureReason::OutputClosed);
        }
        let quiet = match self.last_output {
            None => {
                let grace: u128 = if settle > INITIAL_OUTPUT_GRACE {
                    settle
                } else {
                    INITIAL_OUTPUT_GRACE
                };
                settle == 0 || elapsed_since(started, now) >= grace
            },
            Some(last) => elapsed_since(last, now) >= settle,
        };
        if quiet {
            return Some(CaptureReason::Idle);
        }
        if now >= deadline {
            return Some(CaptureReason::Deadline);
        }
        None
    }
}

/// A capture never waits past its deadline.
pub proof fn lemma_capture_is_bounded(
    life: Life,
    ended: bool,
    settle: u128,
    started: u128,
    deadline: u128,
    now: u128,
)
    requires
        now >= deadline,
    ensures
        life.capture_reason(ended, settle, started, deadline, now) is Some,
{
}

/// A capture without settling is immediate.
pub proof fn lemma_capture_without_settling_is_immediate(
    life: Life,
    ended: bool,
    started: u128,
    deadline: u128,
    now: u128,
)
    ensures
        life.capture_reason(ended, 0, started, deadline, now) is Some,
{
}

/// Keeps the last `max_bytes` of what was written, and notes whether something was lost.
pub fn retain_recent(ansi: &mut Vec<u8>, bytes: &[u8], max_bytes: usize, truncated: &mut bool)
    ensures
        final(ansi)@ == shot::last_bytes(old(ansi)@ + bytes@, max_bytes as int),
        *final(truncated) == (*old(truncated) || if max_bytes == 0 {
            bytes@.len() > 0
        } else {
            old(ansi)@.len() + bytes@.len() > max_bytes
        }),
{
    if max_bytes == 0 {
        *truncated = *truncated || bytes.len() > 0;
        ansi.clear();
        assert(ansi@ =~= shot::last_bytes(old(ansi)@ + bytes@, 0));
        return;
    }
    text::append_bytes(ansi, bytes);
    if ansi.len() > max_bytes {
        *truncated = true;
    }
    shot::keep_last(ansi, max_bytes);
}

/// Everything that was written in these chunks.
pub open spec fn all_bytes(chunks: Seq<Seq<u8>>) -> Seq<u8>
    decreases chunks.len(),
{
    if chunks.len() == 0 {
        Seq::empty()
    } else {
        all_bytes(chunks.drop_last()) + chunks.last()
    }
}

/// What is kept of these chunks, and whether something was lost.
pub open spec fn retained(chunks: Seq<Seq<u8>>, max_bytes: usize) -> (Seq<u8>, bool)
    decreases chunks.len(),
{
    if chunks.len() == 0 {
        (Seq::empty(), false)
    } else {
        let (ansi, truncated) = retained(chunks.drop_last(), max_bytes);
        (
            shot::last_bytes(ansi + chunks.last(), max_bytes as int),
            truncated || if max_bytes == 0 {
                chunks.last().len() > 0
            } else {
                ansi.len() + chunks.last().len() > max_bytes
            },
        )
    }
}

/// What is kept is the end of all that was written, never more than the limit, and something is
/// said to be lost exactly when more was written than is kept.
pub proof fn lemma_retained_is_recent(chunks: Seq<Seq<u8>>, max_bytes: usize)
    ensures
        retained(chunks, max_bytes).0 == shot::last_bytes(all_bytes(chunks), max_bytes as int),
        retained(chunks, max_bytes).0.len() <= max_bytes,
        retained(chunks, max_bytes).1 == (all_bytes(chunks).len() > max_bytes),
    decreases chunks.len(),
{
    if chunks.len() > 0 {
        lemma_retained_is_recent(chunks.drop_last(), max_bytes);
        let before = all_bytes(chunks.drop_last());
        let kept = shot::last_bytes(before, max_bytes as int);
        let last = chunks.last();
        assert(shot::last_bytes(kept + last, max_bytes as int) =~= shot::last_bytes(
            before + last,
            max_bytes as int,
        ));
    }
}

/// A chunk of output, and when it was read in milliseconds after the start.
#[derive(Debug)]
pub struct Output {
    pub at_ms: u64,
    pub bytes: Vec<u8>,
}

/// Input that was captured for someone else.
#[derive(Debug)]
pub struct CapturedInput {
    pub origin: InputOrigin,
    pub bytes: Vec<u8>,
}

/// One running terminal application.
#[derive(Debug)]
pub struct Session {
    pub life: Life,
    pub exit: Option<ProcessExit>,
    pub ansi: Vec<u8>,
    pub ansi_truncated: bool,
    pub max_bytes: usize,
    pub host: Host,
    pub recording: Option<Writer>,
    pub capture_input: bool,
    pub captured_input: Vec<CapturedInput>,
    pub cols: u16,
    pub rows: u16,
    pub cell_width: u16,
    pub cell_height: u16,
    pub launch: SessionLaunch,
}

impl ProcessExit {
    /// Whether two exits are the same.
    pub open spec fn same(&self, other: ProcessExit) -> bool {
        &&& self.code == other.code
        &&& self.success == other.success
        &&& match (self.signal, other.signal) {
            (Some(signal), Some(other)) => signal@ == other@,
            (None, None) => true,
            _ => false,
        }
    }
}

impl Clone for ProcessExit {
    fn clone(&self) -> (exit: Self)
        ensures
            exit.same(*self),
    {
        let signal = match &self.signal {
            Some(signal) => Some(signal.clone()),
            None => None,
        };
        ProcessExit { code: self.code, signal, success: self.success }
    }
}

/// Whether two texts are the same, or both missing.
pub open spec fn same_option(left: Option<String>, right: Option<String>) -> bool {
    match (left, right) {
        (Some(left), Some(right)) => left@ == right@,
        (None, None) => true,
        _ => false,
    }
}

impl SessionLaunch {
    /// Whether two launches have the same settings.
    pub open spec fn same(&self, other: SessionLaunch) -> bool {
        &&& text::views(self.command@) == text::views(other.command@)
        &&& self.cwd@ == other.cwd@
        &&& same_option(self.record, other.record)
        &&& self.cols == other.cols
        &&& self.rows == other.rows
        &&& self.cell_width == other.cell_width
        &&& self.cell_height == other.cell_height
        &&& self.max_bytes == other.max_bytes
        &&& self.opentui_host == other.opentui_host
        &&& self.color == other.color
    }
}

impl Clone for SessionLaunch {
    fn clone(&self) -> (launch: Self)
        ensures
            launch.same(*self),
    {
        let record = match &self.record {
            Some(record) => Some(record.clone()),
            None => None,
        };
        SessionLaunch {
            command: text::copy_texts(self.command.as_slice()),
            cwd: self.cwd.clone(),
            record,
            cols: self.cols,
            rows: self.rows,
            cell_width: self.cell_width,
            cell_height: self.cell_height,
            max_bytes: self.max_bytes,
            opentui_host: self.opentui_host,
            color: self.color,
        }
    }
}

/// The settings that a session is started with. `cwd` is the directory it really runs in.
pub fn launch_settings(
    command: &[String],
    cwd: String,
    record: Option<String>,
    options: &Options,
) -> (launch: SessionLaunch)
    ensures
        text::views(launch.command@) == text::views(command@),
        launch.cwd == cwd,
        launch.record == record,
        launch.cols == options.cols,
        launch.rows == options.rows,
        launch.cell_width == options.cell_width,
        launch.cell_height == options.cell_height,
        launch.max_bytes == options.max_bytes,
        launch.opentui_host == options.opentui_host,
        launch.color == options.color,
{
    SessionLaunch {
        command: text::copy_texts(command),
        cwd,
        record,
        cols: options.cols,
        rows: options.rows,
        cell_width: options.cell_width,
        cell_height: options.cell_height,
        max_bytes: options.max_bytes,
        opentui_host: options.opentui_host,
        color: options.color,
    }
}

impl Session {
    /// What holds of every session: an exit is known exactly when the application has exited, and
    /// no more output is kept than allowed.
    pub open spec fn wf(&self) -> bool {
        &&& self.life.exited <==> self.exit is Some
        &&& self.ansi@.len() <= self.max_bytes
        &&& self.cols > 0
        &&& self.rows > 0
    }

    /// Whether nothing but the retained output, the lifetime, the host and the captured input
    /// differ.
    pub open spec fn same_settings(&self, other: Session) -> bool {
        &&& self.max_bytes == other.max_bytes
        &&& self.recording == other.recording
        &&& self.capture_input == other.capture_input
        &&& self.cols == other.cols
        &&& self.rows == other.rows
        &&& self.cell_width == other.cell_width
        &&& self.cell_height == other.cell_height
        &&& self.launch == other.launch
    }

    /// A session in the default colors. See [`Session::start_with_theme`].
    pub fn start(
        launch: SessionLaunch,
        options: &Options,
        recording: Option<Writer>,
        process_group: Option<i32>,
    ) -> (result: Result<Session, ShotError>)
        ensures
            result is Ok <==> launch.command@.len() > 0 && options.cols > 0 && options.rows > 0,
            result matches Err(error) ==> error == if launch.command@.len() == 0 {
                ShotError::NoCommand
            } else {
                ShotError::ZeroGeometry
            },
            result matches Ok(session) ==> {
                &&& session.is_new(launch, *options, recording, process_group)
                &&& session.host.theme@ == crate::terminal_theme::default_theme()
            },
    {
        Session::start_with_theme(
            launch,
            options,
            TerminalTheme::default(),
            recording,
            process_group,
        )
    }

    /// Whether this is a session whose application was just started.
    pub open spec fn is_new(
        &self,
        launch: SessionLaunch,
        options: Options,
        recording: Option<Writer>,
        process_group: Option<i32>,
    ) -> bool {
        &&& self.wf()
        &&& self.life == (Life {
            process_group,
            output_closed: false,
            stopped: false,
            exited: false,
            drain_started: None,
            exit_ready: false,
            last_output: None,
        })
        &&& self.ansi@.len() == 0
        &&& !self.ansi_truncated
        &&& self.max_bytes == options.max_bytes
        &&& self.recording == recording
        &&& !self.capture_input
        &&& self.captured_input@.len() == 0
        &&& self.cols == options.cols
        &&& self.rows == options.rows
        &&& self.cell_width == options.cell_width
        &&& self.cell_height == options.cell_height
        &&& self.launch == launch
        &&& self.host.enabled == options.opentui_host
        &&& self.host.pixel_width == options.cols * options.cell_width
        &&& self.host.pixel_height == options.rows * options.cell_height
        &&& self.host.probe@.len() == 0
        &&& self.host.color_probe@.len() == 0
        &&& !self.host.opentui_replied
        &&& !self.host.kitty_replied
    }

    /// A session whose application was just started with `launch`. Refuses a launch without a
    /// command or without cells.
    pub fn start_with_theme(
        launch: SessionLaunch,
        options: &Options,
        theme: TerminalTheme,
        recording: Option<Writer>,
        process_group: Option<i32>,
    ) -> (result: Result<Session, ShotError>)
        ensures
            result is Ok <==> launch.command@.len() > 0 && options.cols > 0 && options.rows > 0,
            result matches Err(error) ==> error == if launch.command@.len() == 0 {
                ShotError::NoCommand
            } else {
                ShotError::ZeroGeometry
            },
            result matches Ok(session) ==> {
                &&& session.is_new(launch, *options, recording, process_group)
                &&& session.host.theme == theme
            },
    {
        match shot::check_launch(&launch.command, options) {
            Ok(()) => {},
            Err(error) => {
                return Err(error);
            },
        }
        Ok(
            Session {
                life: Life::start(process_group),
                exit: None,
                ansi: Vec::new(),
                ansi_truncated: false,
                max_bytes: options.max_bytes,
                host: Host::new_with_theme(options, theme),
                recording,
                capture_input: false,
                captured_input: Vec::new(),
                cols: options.cols,
                rows: options.rows,
                cell_width: options.cell_width,
                cell_height: options.cell_height,
                launch,
            },
        )
    }

    /// Whether the application takes input. One that has exited or was stopped does not, even
    /// while its last output is still awaited.
    pub fn send(&self) -> (result: Result<(), LiveError>)
        requires
            self.wf(),
        ensures
            result == if self.life.takes_input() {
                Ok::<(), LiveError>(())
            } else {
                Err(LiveError::Exited)
            },
    {
        if self.exit.is_some() || self.life.stopped {
            return Err(LiveError::Exited);
        }
        Ok(())
    }

    /// Notes that the application has exited. Its first exit is what counts.
    pub fn note_exit(&mut self, exit: ProcessExit, now: u128)
        requires
            old(self).wf(),
        ensures
            final(self).wf(),
            old(self).exit is Some ==> *final(self) == *old(self),
            old(self).exit is None ==> *final(self) == (Session {
                life: Life { exited: true, drain_started: Some(now), ..old(self).life },
                exit: Some(exit),
                ..*old(self)
            }),
    {
        if self.exit.is_none() {
            self.exit = Some(exit);
            self.life.exited = true;
            self.life.drain_started = Some(now);
        }
    }

    /// Notes input that was written to the application. Returns the entry for the recording, if
    /// there is one. `now_ms` is in milliseconds.
    pub fn record_input(&mut self, origin: InputOrigin, input: &[u8], now_ms: u64) -> (entry: Option<
        Entry,
    >)
        ensures
            entry is Some <==> old(self).recording is Some,
            entry matches Some(entry) ==> entry matches Entry::Input { at_ms, origin: from, bytes }
                && at_ms == now_ms.saturating_sub(old(self).recording->0.started) && from == origin
                && bytes@ == input@,
            final(self).same_settings(*old(self)),
            final(self).life == old(self).life,
            final(self).exit == old(self).exit,
            final(self).ansi == old(self).ansi,
            final(self).ansi_truncated == old(self).ansi_truncated,
            final(self).host == old(self).host,
            !old(self).capture_input ==> final(self).captured_input == old(self).captured_input,
            old(self).capture_input ==> {
                let captured = final(self).captured_input@;
                &&& captured.len() == old(self).captured_input@.len() + 1
                &&& captured.drop_last() == old(self).captured_input@
                &&& captured.last().origin == origin
                &&& captured.last().bytes@ == input@
            },
    {
        let entry = match &self.recording {
            Some(recording) => Some(recording.input(origin, input, now_ms)),
            None => None,
        };
        if self.capture_input {
            self.captured_input.push(
                CapturedInput { origin, bytes: vstd::slice::slice_to_vec(input) },
            );
            assert(self.captured_input@.drop_last() =~= old(self).captured_input@);
        }
        entry
    }

    /// Hands out the captured input.
    pub fn take_captured_input(&mut self) -> (captured: Vec<CapturedInput>)
        ensures
            captured@ == old(self).captured_input@,
            final(self).captured_input@.len() == 0,
            final(self).same_settings(*old(self)),
            final(self).life == old(self).life,
            final(self).exit == old(self).exit,
            final(self).ansi == old(self).ansi,
            final(self).ansi_truncated == old(self).ansi_truncated,
            final(self).host == old(self).host,
    {
        let mut captured: Vec<CapturedInput> = Vec::new();
        std::mem::swap(&mut captured, &mut self.captured_input);
        captured
    }

    /// Keeps a chunk of output. Returns the entry for the recording, if there is one.
    pub fn absorb(&mut self, output: &Output) -> (entry: Option<Entry>)
        requires
            old(self).wf(),
        ensures
            final(self).wf(),
            entry is Some <==> old(self).recording is Some,
            entry matches Some(entry) ==> entry matches Entry::Output { at_ms, bytes } && at_ms
                == output.at_ms && bytes@ == output.bytes@,
            final(self).ansi@ == shot::last_bytes(
                old(self).ansi@ + output.bytes@,
                old(self).max_bytes as int,
            ),
            final(self).ansi_truncated == (old(self).ansi_truncated || old(self).ansi@.len()
                + output.bytes@.len() > old(self).max_bytes),
            final(self).same_settings(*old(self)),
            final(self).life == old(self).life,
            final(self).exit == old(self).exit,
            final(self).host == old(self).host,
            final(self).captured_input == old(self).captured_input,
    {
        let entry = match &self.recording {
            Some(recording) => Some(recording.output(output.at_ms, output.bytes.as_slice())),
            None => None,
        };
        retain_recent(
            &mut self.ansi,
            output.bytes.as_slice(),
            self.max_bytes,
            &mut self.ansi_truncated,
        );
        entry
    }

    /// Answers a batch of output: the host's answers, or the terminal's own where the host does
    /// not answer.
    pub fn answer_output(&mut self, output: &[u8], terminal_response: Vec<u8>) -> (response: Vec<u8>)
        ensures
            old(self).host.enabled ==> response@ == old(self).host.answer(output@),
            !old(self).host.enabled ==> response == terminal_response,
            final(self).host.has_answered(old(self).host, output@),
            *final(self) == (Session { host: final(self).host, ..*old(self) }),
    {
        shot::respond_to_output(&mut self.host, terminal_response, output)
    }

    /// Notes that a batch of output was answered. An answer that reached an open terminal is
    /// recorded as input of the host. Returns the entry for the recording, if there is one.
    pub fn finish_output(&mut self, response: Vec<u8>, open: bool, now: u128, now_ms: u64) -> (entry:
        Option<Entry>)
        ensures
            final(self).life == (Life { last_output: Some(now), ..old(self).life }),
            final(self).same_settings(*old(self)),
            final(self).exit == old(self).exit,
            final(self).ansi == old(self).ansi,
            final(self).ansi_truncated == old(self).ansi_truncated,
            final(self).host == old(self).host,
            entry is Some <==> open && response@.len() > 0 && old(self).recording is Some,
            entry matches Some(entry) ==> entry matches Entry::Input { at_ms, origin, bytes }
                && at_ms == now_ms.saturating_sub(old(self).recording->0.started) && origin
                == InputOrigin::Host && bytes@ == response@,
            !(open && response@.len() > 0 && old(self).capture_input) ==> final(self).captured_input
                == old(self).captured_input,
            open && response@.len() > 0 && old(self).capture_input ==> {
                let captured = final(self).captured_input@;
                &&& captured.len() == old(self).captured_input@.len() + 1
                &&& captured.drop_last() == old(self).captured_input@
                &&& captured.last().origin == InputOrigin::Host
                &&& captured.last().bytes@ == response@
            },
    {
        let response = shot::delivered(response, open);
        let entry = if response.len() > 0 {
            self.record_input(InputOrigin::Host, response.as_slice(), now_ms)
        } else {
            None
        };
        self.life.last_output = Some(now);
        entry
    }

    /// Whether the session has to take a new size. A terminal without cells is refused.
    pub fn needs_resize(&self, cols: u16, rows: u16, cell_width: u16, cell_height: u16) -> (result:
        Result<bool, ShotError>)
        ensures
            result is Ok <==> cols > 0 && rows > 0,
            result matches Err(error) ==> error is ZeroGeometry,
            result matches Ok(needed) ==> needed == !(cols == self.cols && rows == self.rows
                && cell_width == self.cell_width && cell_height == self.cell_height),
    {
        match shot::validate_geometry(rows, cols) {
            Ok(()) => {},
            Err(error) => {
                return Err(error);
            },
        }
        Ok(
            !(cols == self.cols && rows == self.rows && cell_width == self.cell_width && cell_height
                == self.cell_height),
        )
    }

    /// Takes a new size. Returns the entry for the recording, if there is one.
    pub fn resize(
        &mut self,
        cols: u16,
        rows: u16,
        cell_width: u16,
        cell_height: u16,
        now_ms: u64,
    ) -> (entry: Option<Entry>)
        requires
            old(self).wf(),
            cols > 0,
            rows > 0,
        ensures
            final(self).wf(),
            *final(self) == (Session {
                cols,
                rows,
                cell_width,
                cell_height,
                host: Host {
                    pixel_width: (cols * cell_width) as u32,
                    pixel_height: (rows * cell_height) as u32,
                    ..old(self).host
                },
                ..*old(self)
            }),
            entry == match old(self).recording {
                Some(recording) => Some(
                    Entry::Resize {
                        at_ms: now_ms.saturating_sub(recording.started),
                        cols,
                        rows,
                        cell_width,
                        cell_height,
                    },
                ),
                None => None,
            },
    {
        self.host.resize(cols, rows, cell_width, cell_height);
        self.cols = cols;
        self.rows = rows;
        self.cell_width = cell_width;
        self.cell_height = cell_height;
        match &self.recording {
            Some(recording) => {
                match recording.resize(cols, rows, cell_width, cell_height, now_ms) {
                    Ok(entry) => Some(entry),
                    Err(_) => None,
                }
            },
            None => None,
        }
    }

    /// Takes new colors.
    pub fn set_theme(&mut self, theme: TerminalTheme)
        ensures
            *final(self) == (Session {
                host: Host { theme, ..old(self).host },
                ..*old(self)
            }),
    {
        self.host.set_theme(theme);
    }

    /// The entry that names the moment `now_ms` in the recording. Without one there is nothing to
    /// mark.
    pub fn mark(&self, name: &str, now_ms: u64) -> (result: Result<Entry, LiveError>)
        ensures
            result is Ok <==> self.recording is Some,
            result matches Ok(entry) ==> (entry matches Entry::Marker { at_ms, name: kept } && at_ms
                == now_ms.saturating_sub(self.recording->0.started) && kept@ == name@),
            result matches Err(error) ==> error == LiveError::NotRecorded,
    {
        match &self.recording {
            Some(recording) => Ok(recording.marker(name, now_ms)),
            None => Err(LiveError::NotRecorded),
        }
    }

    /// Whether visible text has shown, can no longer show, or is still awaited. `ended` tells
    /// whether the application has ended.
    pub fn wait_for_text(&self, visible: &str, text: &str, ended: bool, deadline: u128, now: u128) -> (next:
        WaitNext)
        ensures
            next is Done <==> text::occurs(visible@, text@),
            next is Rest <==> !text::occurs(visible@, text@) && !ended && !self.life.stopped && now
                < deadline,
            next matches WaitNext::Failed(error) ==> if ended || self.life.stopped {
                error is EndedBeforeText && error->EndedBeforeText_text@ == text@
            } else {
                error is TextTimeout && error->TextTimeout_text@ == text@
            },
    {
        let ended = ended || self.life.stopped;
        if text::text_contains(visible, text) {
            return WaitNext::Done;
        }
        if ended {
            return WaitNext::Failed(LiveError::EndedBeforeText { text: text.to_owned() });
        }
        if now >= deadline {
            return WaitNext::Failed(LiveError::TextTimeout { text: text.to_owned() });
        }
        WaitNext::Rest
    }

    /// Whether output has settled, or is awaited for too long. `started` is when the wait began.
    pub fn wait_for_idle(&self, settle: u128, started: u128, deadline: u128, now: u128) -> (next:
        WaitNext)
        ensures
            next == if self.life.settled(settle, started, now) {
                WaitNext::Done
            } else if now >= deadline {
                WaitNext::Failed(LiveError::SettleTimeout)
            } else {
                WaitNext::Rest
            },
    {
        if self.life.output_closed || self.idle_for(started, now) >= settle {
            return WaitNext::Done;
        }
        if now >= deadline {
            return WaitNext::Failed(LiveError::SettleTimeout);
        }
        WaitNext::Rest
    }

    /// Whether the application has exited, or is awaited for too long, which is no failure.
    pub fn wait_for_exit(&self, ended: bool, deadline: u128, now: u128) -> (next: ExitNext)
        ensures
            ended || self.life.stopped ==> match self.exit {
                Some(exit) => next matches ExitNext::Exited(Some(told)) && told.same(exit),
                None => next == ExitNext::Exited(None),
            },
            !ended && !self.life.stopped ==> next == if now >= deadline {
                ExitNext::TimedOut
            } else {
                ExitNext::Rest
            },
    {
        if ended || self.life.stopped {
            let exit = match &self.exit {
                Some(exit) => Some(exit.clone()),
                None => None,
            };
            return ExitNext::Exited(exit);
        }
        if now >= deadline {
            return ExitNext::TimedOut;
        }
        ExitNext::Rest
    }

    /// The exact output that was kept, where that is asked for. The readable output is the
    /// terminal's.
    pub fn logs(&self, ansi: bool) -> (bytes: Option<Vec<u8>>)
        ensures
            bytes is Some <==> ansi,
            bytes matches Some(bytes) ==> bytes@ == self.ansi@,
    {
        if ansi {
            Some(vstd::slice::slice_to_vec(self.ansi.as_slice()))
        } else {
            None
        }
    }

    /// Whether the application's semantic provider can be asked again after a snapshot.
    pub fn keeps_provider(&self) -> (keeps: bool)
        requires
            self.wf(),
        ensures
            keeps == self.life.takes_input(),
    {
        self.exit.is_none() && !self.life.stopped
    }

    /// How long nothing was written, in nanoseconds, counted from `started` where nothing was
    /// written at all.
    pub fn idle_for(&self, started: u128, now: u128) -> (duration: u128)
        ensures
            duration == since(
                match self.life.last_output {
                    Some(last) => last,
                    None => started,
                },
                now,
            ),
    {
        match self.life.last_output {
            Some(last) => elapsed_since(last, now),
            None => elapsed_since(started, now),
        }
    }

    /// The status of the session. `has_visible_content` tells whether its frame shows anything.
    pub fn status(&self, has_visible_content: bool, now: u128) -> (status: SessionStatus)
        requires
            self.wf(),
        ensures
            status.state == if self.life.takes_input() {
                SessionState::Running
            } else {
                SessionState::Exited
            },
            status.exit is Some <==> self.exit is Some,
            status.exit matches Some(exit) ==> exit.same(self.exit->0),
            status.cols == self.cols,
            status.rows == self.rows,
            status.cell_width == self.cell_width,
            status.cell_height == self.cell_height,
            status.idle_for_ms == match self.life.last_output {
                Some(last) => Some((since(last, now) / 1_000_000) as u64),
                None => None,
            },
            status.has_visible_content == has_visible_content,
            status.recording == self.recording is Some,
            status.logs_truncated == self.ansi_truncated,
            status.launch.same(self.launch),
    {
        let state = if self.exit.is_some() || self.life.stopped {
            SessionState::Exited
        } else {
            SessionState::Running
        };
        let exit = match &self.exit {
            Some(exit) => Some(exit.clone()),
            None => None,
        };
        let idle_for_ms: Option<u64> = match self.life.last_output {
            Some(last) => Some((elapsed_since(last, now) / 1_000_000) as u64),
            None => None,
        };
        SessionStatus {
            state,
            exit,
            cols: self.cols,
            rows: self.rows,
            cell_width: self.cell_width,
            cell_height: self.cell_height,
            idle_for_ms,
            has_visible_content,
            recording: self.recording.is_some(),
            logs_truncated: self.ansi_truncated,
            launch: self.launch.clone(),
        }
    }

    /// The shot of what is visible, with the output that was kept.
    pub fn snapshot(&self, frame: Frame) -> (shot: Shot)
        ensures
            shot.frame == frame,
            shot.ansi@ == self.ansi@,
    {
        Shot { frame, ansi: vstd::slice::slice_to_vec(self.ansi.as_slice()) }
    }

    /// The capture of what is visible, for `reason`.
    pub fn captured(&self, frame: Frame, reason: CaptureReason) -> (result: CaptureResult)
        ensures
            result.shot.frame == frame,
            result.shot.ansi@ == self.ansi@,
            result.reason == reason,
    {
        CaptureResult { shot: self.snapshot(frame), reason }
    }
}

/// How long to wait for the next chunk of a batch that already holds `collected`, in milliseconds:
/// a while for the first, a moment for the others, and not at all once the batch is full.
pub fn batch_wait(collected: usize) -> (wait: Option<u64>)
    ensures
        wait == if collected == 0 {
            Some(10u64)
        } else if collected < OUTPUT_BATCH {
            Some(1u64)
        } else {
            None
        },
{
    if collected == 0 {
        Some(10)
    } else if collected < OUTPUT_BATCH {
        Some(1)
    } else {
        None
    }
}

/// The wait for the last output of an application that has exited.
#[derive(Clone, Copy, Debug, PartialEq, Eq, Structural)]
pub struct Drain {
    pub kill_after: u128,
    pub deadline: u128,
}

/// What to do next while an application is brought to an end.
#[derive(Clone, Copy, Debug, PartialEq, Eq, Structural)]
pub enum EndNext {
    /// Ask the process group to hang up.
    Hangup(i32),
    /// Kill the process group.
    Kill(i32),
    /// Kill the application itself.
    KillChild,
    /// Take one chunk of output if there is one, and ask whether the application has exited.
    Poll,
    /// Rest for so many nanoseconds.
    Rest(u128),
    /// Wait for a batch of output.
    ReceiveBatch,
    /// Wait for one chunk of output, so many milliseconds.
    Receive(u64),
    Done,
}

impl Drain {
    /// The wait that begins at `now`.
    pub open spec fn begun(now: u128) -> Drain {
        Drain { kill_after: later(now, KILL_AFTER), deadline: later(now, DRAIN_LIMIT) }
    }

    /// The life after one more step of the wait, and what to do. Only if output stays open long
    /// enough to show that a descendant lives is the process group killed.
    pub open spec fn stepped(self, life: Life, now: u128) -> (Life, EndNext) {
        if life.output_closed || now >= self.deadline {
            (
                Life {
                    process_group: if life.output_closed {
                        None
                    } else {
                        life.process_group
                    },
                    exit_ready: true,
                    ..life
                },
                EndNext::Done,
            )
        } else if now >= self.kill_after && life.process_group is Some {
            (Life { process_group: None, ..life }, EndNext::Kill(life.process_group->0))
        } else {
            (life, EndNext::ReceiveBatch)
        }
    }

    /// Begins the wait.
    pub fn begin(now: u128) -> (drain: Drain)
        ensures
            drain == Drain::begun(now),
    {
        Drain {
            kill_after: moment_after(now, KILL_AFTER),
            deadline: moment_after(now, DRAIN_LIMIT),
        }
    }

    /// Says what to do next.
    pub fn step(&self, life: &mut Life, now: u128) -> (next: EndNext)
        ensures
            (*final(life), next) == self.stepped(*old(life), now),
    {
        if life.output_closed || now >= self.deadline {
            if life.output_closed {
                life.process_group = None;
            }
            life.exit_ready = true;
            return EndNext::Done;
        }
        if now >= self.kill_after {
            if let Some(group) = life.process_group {
                life.process_group = None;
                return EndNext::Kill(group);
            }
        }
        EndNext::ReceiveBatch
    }
}

/// How long an application may take to hang up, in nanoseconds.
pub const GRACE: u128 = 150_000_000;

/// How long a killed application is awaited, in nanoseconds.
pub const FORCE: u128 = 1_000_000_000;

/// How long the output of a killed application is awaited, in nanoseconds.
pub const LAST_OUTPUT: u128 = 100_000_000;

/// Where the end of an application stands.
#[derive(Clone, Copy, Debug, PartialEq, Eq, Structural)]
pub enum EndPhase {
    Begin,
    HungUp,
    /// Waiting for the application to hang up.
    Grace { until: u128 },
    GracePolled { until: u128 },
    /// Waiting for the last output of an application that has hung up.
    Finish(Drain),
    GroupKilled,
    ChildKilled,
    /// Waiting for a killed application.
    Force { until: u128 },
    ForcePolled { until: u128 },
    /// Waiting for the output of a killed application.
    LastOutput { until: u128 },
    Over,
}

/// The end of an application: it is asked to hang up, then killed, and its last output is read.
#[derive(Clone, Copy, Debug, PartialEq, Eq, Structural)]
pub struct Termination {
    pub group: Option<i32>,
    pub phase: EndPhase,
}

/// Termination, life and next action.
pub type End = (Termination, Life, EndNext);

impl Termination {
    /// In another phase.
    pub open spec fn in_phase(self, phase: EndPhase) -> Termination {
        Termination { phase, ..self }
    }

    /// Over: no more output counts, and nothing more is done.
    pub open spec fn over(self, life: Life) -> End {
        (
            self.in_phase(EndPhase::Over),
            Life {
                process_group: None,
                output_closed: true,
                stopped: true,
                exit_ready: life.exited,
                ..life
            },
            EndNext::Done,
        )
    }

    /// Awaiting the output of a killed application.
    pub open spec fn last_output(self, life: Life, until: u128, now: u128) -> End {
        if life.output_closed || now >= until {
            self.over(life)
        } else {
            (self.in_phase(EndPhase::LastOutput { until }), life, EndNext::Receive(5))
        }
    }

    /// Awaiting a killed application.
    pub open spec fn force(self, life: Life, until: u128, now: u128) -> End {
        if life.exited || now >= until {
            self.last_output(life, later(now, LAST_OUTPUT), now)
        } else {
            (self.in_phase(EndPhase::ForcePolled { until }), life, EndNext::Poll)
        }
    }

    /// The process group was killed: now the application itself, if it still runs.
    pub open spec fn group_killed(self, life: Life, now: u128) -> End {
        let life = Life { process_group: None, ..life };
        if life.exited {
            self.force(life, later(now, FORCE), now)
        } else {
            (self.in_phase(EndPhase::ChildKilled), life, EndNext::KillChild)
        }
    }

    /// Kills the process group that the application had at the beginning.
    pub open spec fn kill_group(self, life: Life, now: u128) -> End {
        match self.group {
            Some(group) => (self.in_phase(EndPhase::GroupKilled), life, EndNext::Kill(group)),
            None => self.group_killed(life, now),
        }
    }

    /// Awaiting the last output of an application that has hung up.
    pub open spec fn finish(self, drain: Drain, life: Life, now: u128) -> End {
        let (drained, next) = drain.stepped(life, now);
        if next == EndNext::Done {
            self.kill_group(drained, now)
        } else {
            (self.in_phase(EndPhase::Finish(drain)), drained, next)
        }
    }

    /// The application has hung up, or has had its time.
    pub open spec fn after_grace(self, life: Life, now: u128) -> End {
        if life.exited {
            self.finish(Drain::begun(now), life, now)
        } else {
            self.kill_group(life, now)
        }
    }

    /// Awaiting that the application hangs up.
    pub open spec fn grace(self, life: Life, until: u128, now: u128) -> End {
        if life.exited || now >= until {
            self.after_grace(life, now)
        } else {
            (self.in_phase(EndPhase::GracePolled { until }), life, EndNext::Poll)
        }
    }

    /// One more step to the end. An application that was stopped before is left alone.
    pub open spec fn stepped(self, life: Life, now: u128) -> End {
        match self.phase {
            EndPhase::Begin => if life.stopped {
                (self.in_phase(EndPhase::Over), life, EndNext::Done)
            } else {
                match life.process_group {
                    Some(group) => (
                        Termination { group: Some(group), phase: EndPhase::HungUp },
                        life,
                        EndNext::Hangup(group),
                    ),
                    None => (Termination { group: None, ..self }).grace(
                        life,
                        later(now, GRACE),
                        now,
                    ),
                }
            },
            EndPhase::HungUp => self.grace(life, later(now, GRACE), now),
            EndPhase::Grace { until } => self.grace(life, until, now),
            EndPhase::GracePolled { until } => if life.exited {
                self.after_grace(life, now)
            } else {
                (self.in_phase(EndPhase::Grace { until }), life, EndNext::Rest(1_000_000))
            },
            EndPhase::Finish(drain) => self.finish(drain, life, now),
            EndPhase::GroupKilled => self.group_killed(life, now),
            EndPhase::ChildKilled => self.force(life, later(now, FORCE), now),
            EndPhase::Force { until } => self.force(life, until, now),
            EndPhase::ForcePolled { until } => if life.exited {
                self.last_output(life, later(now, LAST_OUTPUT), now)
            } else {
                (self.in_phase(EndPhase::Force { until }), life, EndNext::Rest(1_000_000))
            },
            EndPhase::LastOutput { until } => self.last_output(life, until, now),
            EndPhase::Over => (self, life, EndNext::Done),
        }
    }

    /// Begins to bring an application to its end.
    pub fn begin() -> (termination: Termination)
        ensures
            termination == (Termination { group: None, phase: EndPhase::Begin }),
    {
        Termination { group: None, phase: EndPhase::Begin }
    }

    fn run_last_output(&mut self, life: &mut Life, until: u128, now: u128) -> (next: EndNext)
        ensures
            (*final(self), *final(life), next) == old(self).last_output(*old(life), until, now),
    {
        if life.output_closed || now >= until {
            self.phase = EndPhase::Over;
            life.process_group = None;
            life.output_closed = true;
            life.stopped = true;
            life.exit_ready = life.exited;
            return EndNext::Done;
        }
        self.phase = EndPhase::LastOutput { until };
        EndNext::Receive(5)
    }

    fn run_force(&mut self, life: &mut Life, until: u128, now: u128) -> (next: EndNext)
        ensures
            (*final(self), *final(life), next) == old(self).force(*old(life), until, now),
    {
        if life.exited || now >= until {
            return self.run_last_output(life, moment_after(now, LAST_OUTPUT), now);
        }
        self.phase = EndPhase::ForcePolled { until };
        EndNext::Poll
    }

    fn run_group_killed(&mut self, life: &mut Life, now: u128) -> (next: EndNext)
        ensures
            (*final(self), *final(life), next) == old(self).group_killed(*old(life), now),
    {
        life.process_group = None;
        if life.exited {
            return self.run_force(life, moment_after(now, FORCE), now);
        }
        self.phase = EndPhase::ChildKilled;
        EndNext::KillChild
    }

    fn run_kill_group(&mut self, life: &mut Life, now: u128) -> (next: EndNext)
        ensures
            (*final(self), *final(life), next) == old(self).kill_group(*old(life), now),
    {
        match self.group {
            Some(group) => {
                self.phase = EndPhase::GroupKilled;
                EndNext::Kill(group)
            },
            None => self.run_group_killed(life, now),
        }
    }

    fn run_finish(&mut self, drain: Drain, life: &mut Life, now: u128) -> (next: EndNext)
        ensures
            (*final(self), *final(life), next) == old(self).finish(drain, *old(life), now),
    {
        let next = drain.step(life, now);
        if next == EndNext::Done {
            return self.run_kill_group(life, now);
        }
        self.phase = EndPhase::Finish(drain);
        next
    }

    fn run_after_grace(&mut self, life: &mut Life, now: u128) -> (next: EndNext)
        ensures
            (*final(self), *final(life), next) == old(self).after_grace(*old(life), now),
    {
        if life.exited {
            self.run_finish(Drain::begin(now), life, now)
        } else {
            self.run_kill_group(life, now)
        }
    }

    fn run_grace(&mut self, life: &mut Life, until: u128, now: u128) -> (next: EndNext)
        ensures
            (*final(self), *final(life), next) == old(self).grace(*old(life), until, now),
    {
        if life.exited || now >= until {
            return self.run_after_grace(life, now);
        }
        self.phase = EndPhase::GracePolled { until };
        EndNext::Poll
    }

    /// Says what to do next to bring the application to its end.
    pub fn step(&mut self, life: &mut Life, now: u128) -> (next: EndNext)
        ensures
            (*final(self), *final(life), next) == old(self).stepped(*old(life), now),
    {
        match self.phase {
            EndPhase::Begin => {
                if life.stopped {
                    self.phase = EndPhase::Over;
                    return EndNext::Done;
                }
                match life.process_group {
                    Some(group) => {
                        self.group = Some(group);
                        self.phase = EndPhase::HungUp;
                        EndNext::Hangup(group)
                    },
                    None => {
                        self.group = None;
                        self.run_grace(life, moment_after(now, GRACE), now)
                    },
                }
            },
            EndPhase::HungUp => self.run_grace(life, moment_after(now, GRACE), now),
            EndPhase::Grace { until } => self.run_grace(life, until, now),
            EndPhase::GracePolled { until } => {
                if life.exited {
                    return self.run_after_grace(life, now);
                }
                self.phase = EndPhase::Grace { until };
                EndNext::Rest(1_000_000)
            },
            EndPhase::Finish(drain) => self.run_finish(drain, life, now),
            EndPhase::GroupKilled => self.run_group_killed(life, now),
            EndPhase::ChildKilled => self.run_force(life, moment_after(now, FORCE), now),
            EndPhase::Force { until } => self.run_force(life, until, now),
            EndPhase::ForcePolled { until } => {
                if life.exited {
                    return self.run_last_output(life, moment_after(now, LAST_OUTPUT), now);
                }
                self.phase = EndPhase::Force { until };
                EndNext::Rest(1_000_000)
            },
            EndPhase::LastOutput { until } => self.run_last_output(life, until, now),
            EndPhase::Over => EndNext::Done,
        }
    }
}

/// How far the end still is.
pub open spec fn phases_left(phase: EndPhase) -> int {
    match phase {
        EndPhase::Begin => 8,
        EndPhase::HungUp => 7,
        EndPhase::Grace { .. } | EndPhase::GracePolled { .. } => 6,
        EndPhase::Finish(_) => 5,
        EndPhase::GroupKilled => 4,
        EndPhase::ChildKilled => 3,
        EndPhase::Force { .. } | EndPhase::ForcePolled { .. } => 2,
        EndPhase::LastOutput { .. } => 1,
        EndPhase::Over => 0,
    }
}

/// An application that is brought to its end never goes back.
pub proof fn lemma_termination_advances(termination: Termination, life: Life, now: u128)
    ensures
        phases_left(termination.stepped(life, now).0.phase) <= phases_left(termination.phase),
{
}

/// When the end is reached, the session is stopped, nothing is left to kill, and no more output
/// counts. An application whose exit was seen is then ready to be told of.
pub proof fn lemma_termination_stops(termination: Termination, life: Life, now: u128)
    requires
        termination.phase != EndPhase::Over,
        termination.stepped(life, now).2 == EndNext::Done,
        termination.phase == EndPhase::Begin ==> !life.stopped,
    ensures
        termination.stepped(life, now).1.stopped,
        termination.stepped(life, now).1.output_closed,
        termination.stepped(life, now).1.process_group is None,
        termination.stepped(life, now).1.exit_ready == life.exited,
{
}

/// A session that was stopped is not stopped again.
pub proof fn lemma_termination_is_once(life: Life, now: u128)
    requires
        life.stopped,
    ensures
        (Termination { group: None, phase: EndPhase::Begin }).stepped(life, now).1 == life,
        (Termination { group: None, phase: EndPhase::Begin }).stepped(life, now).2 == EndNext::Done,
{
}

/// The process group is killed before the end, even if the application hung up by itself: no step
/// leads from before the kill to behind it without killing.
pub proof fn lemma_termination_kills_group(termination: Termination, life: Life, now: u128)
    requires
        termination.group is Some,
        phases_left(termination.phase) > 4,
        termination.phase != EndPhase::Begin,
        phases_left(termination.stepped(life, now).0.phase) <= 4,
    ensures
        termination.stepped(life, now).2 == EndNext::Kill(termination.group->0),
        termination.stepped(life, now).0.phase == EndPhase::GroupKilled,
{
}

/// Once its time is up, each wait comes to an end.
pub proof fn lemma_termination_waits_are_bounded(termination: Termination, life: Life, now: u128)
    requires
        match termination.phase {
            EndPhase::Grace { until } => now >= until,
            EndPhase::Force { until } => now >= until,
            EndPhase::LastOutput { until } => now >= until,
            EndPhase::Finish(drain) => now >= drain.deadline,
            _ => false,
        },
        termination.phase is Grace ==> !life.exited,
    ensures
        phases_left(termination.stepped(life, now).0.phase) < phases_left(termination.phase),
{
}

/// A screen is captured for the reason that is given: the application has ended, its output is
/// closed, nothing was written for the settling time, or the deadline has passed. The first output
/// is awaited for at least 50 ms, unless no settling is asked for. Without a reason it is awaited.
pub proof fn lemma_capture_tells_the_reason(
    life: Life,
    ended: bool,
    settle: u128,
    started: u128,
    deadline: u128,
    now: u128,
)
    ensures
        ({
            let reason = life.capture_reason(ended, settle, started, deadline, now);
            let over = ended || life.stopped;
            let awaited = if settle > 50_000_000 {
                settle
            } else {
                50_000_000
            };
            let quiet = settle == 0 || match life.last_output {
                Some(last) => last + settle <= now,
                None => started + awaited <= now,
            };
            &&& reason == Some(CaptureReason::Exited) <==> over
            &&& reason == Some(CaptureReason::OutputClosed) <==> !over && life.output_closed
            &&& reason == Some(CaptureReason::Idle) <==> !over && !life.output_closed && quiet
            &&& reason == Some(CaptureReason::Deadline) <==> !over && !life.output_closed && !quiet
                && now >= deadline
            &&& reason is None <==> !over && !life.output_closed && !quiet && now < deadline
        }),
{
}

/// Output has settled exactly if it is closed or nothing was written for the settling time, counted
/// from the start of the wait where nothing was written at all.
pub proof fn lemma_settled_output_is_quiet(life: Life, settle: u128, started: u128, now: u128)
    ensures
        life.settled(settle, started, now) <==> {
            ||| life.output_closed
            ||| settle == 0
            ||| match life.last_output {
                Some(last) => last + settle <= now,
                None => started + settle <= now,
            }
        },
{
}

/// An application takes input exactly as long as it has neither exited nor been stopped.
pub proof fn lemma_running_applications_take_input(life: Life)
    ensures
        life.takes_input() <==> !(life.exited || life.stopped),
{
}

/// An application has ended exactly if it has exited and its output is closed, was found complete
/// before, or was awaited for a second. What is left of its process group is killed then, or once
/// output was awaited for 50 ms, and not before. A look changes nothing else.
pub proof fn lemma_end_is_found(life: Life, now: u128)
    ensures
        ({
            let (after, check) = life.checked(now);
            let waited = |time: int| life.drain_started is Some && life.drain_started->0 + time <= now;
            &&& check.ended <==> life.exited && (life.output_closed || life.exit_ready || waited(
                1_000_000_000,
            ))
            &&& check.kill is Some <==> life.exited && life.process_group is Some && (
            life.output_closed || waited(50_000_000))
            &&& check.kill is Some ==> check.kill == life.process_group
            &&& check.kill is None && life.exited && !life.output_closed ==> after.process_group
                == life.process_group
            &&& after.last_output == life.last_output
            &&& after.output_closed == life.output_closed
            &&& after.stopped == life.stopped
            &&& after.exited == life.exited
            &&& after.drain_started == life.drain_started
        }),
{
}

/// Every burst is written once, in order, with a pause of the pace between each two. Nothing is
/// written after the last one.
pub proof fn lemma_bursts_are_written_in_order(sending: Sending)
    ensures
        ({
            let (after, next) = sending.stepped();
            &&& next is Done <==> sending.written >= sending.bursts
            &&& next is Done ==> after == sending
            &&& sending.written < sending.bursts && sending.pause ==> next == SendNext::Rest(
                sending.pace,
            ) && after.written == sending.written && !after.pause
            &&& sending.written < sending.bursts && !sending.pause ==> next == SendNext::Write(
                sending.written,
            ) && after.written == sending.written + 1 && after.pause == (sending.pace > 0)
            &&& after.bursts == sending.bursts
            &&& after.pace == sending.pace
        }),
{
}

/// What was written in some chunks is what was written in the first ones, then in the others.
pub proof fn lemma_chunks_join(left: Seq<Seq<u8>>, right: Seq<Seq<u8>>, chunk: Seq<u8>)
    ensures
        all_bytes(left + right) == all_bytes(left) + all_bytes(right),
        all_bytes(seq![chunk]) == chunk,
    decreases right.len(),
{
    assert(seq![chunk].drop_last() =~= Seq::<Seq<u8>>::empty());
    assert(all_bytes(seq![chunk].drop_last()) =~= Seq::<u8>::empty());
    assert(all_bytes(seq![chunk]) =~= chunk);
    if right.len() == 0 {
        assert(left + right =~= left);
        assert(all_bytes(left) + all_bytes(right) =~= all_bytes(left));
    } else {
        assert((left + right).drop_last() =~= left + right.drop_last());
        lemma_chunks_join(left, right.drop_last(), chunk);
        assert(all_bytes(left + right) =~= all_bytes(left) + all_bytes(right));
    }
}

/// The last output of an exited application is awaited until it is closed or a second is over.
/// Only after 50 ms is what is left of the process group killed, once.
pub proof fn lemma_last_output_is_awaited(began: u128, life: Life, now: u128)
    requires
        began + 1_000_000_000 <= u128::MAX,
    ensures
        ({
            let (after, next) = Drain::begun(began).stepped(life, now);
            &&& next is Done <==> life.output_closed || now >= began + 1_000_000_000
            &&& next is Kill <==> !life.output_closed && began + 50_000_000 <= now < began
                + 1_000_000_000 && life.process_group is Some
            &&& next is Kill ==> life.process_group == Some(next->Kill_0) && after.process_group
                is None
            &&& !(next is Done) && !(next is Kill) ==> next is ReceiveBatch && after == life
            &&& next is Done ==> after.exit_ready
            &&& after.exited == life.exited
            &&& after.last_output == life.last_output
        }),
{
}

/// An application is first asked to hang up, and is given 150 ms for that. Only if it still runs then
/// is it killed: its process group first, and the application itself if that did not end it.
pub proof fn lemma_application_is_asked_before_it_is_killed(
    termination: Termination,
    life: Life,
    now: u128,
)
    requires
        now + 2_000_000_000 <= u128::MAX,
    ensures
        ({
            let (after, changed, next) = termination.stepped(life, now);
            &&& termination.phase is Begin && !life.stopped && life.process_group is Some ==> next
                == EndNext::Hangup(life.process_group->0) && after.group == life.process_group
                && after.phase is HungUp && changed == life
            &&& next is Hangup ==> termination.phase is Begin
            &&& termination.phase is HungUp && !life.exited ==> next is Poll && after.phase == (
            EndPhase::GracePolled { until: (now + 150_000_000) as u128 })
            &&& termination.phase matches EndPhase::Grace { until } ==> {
                &&& !life.exited && now < until ==> next is Poll
                &&& !life.exited && now >= until && termination.group is Some ==> next
                    == EndNext::Kill(termination.group->0)
                &&& !life.exited && now >= until && termination.group is None ==> next is KillChild
            }
            &&& termination.phase is GracePolled && !life.exited ==> next is Rest
            &&& termination.phase is GroupKilled && !life.exited ==> next is KillChild
            &&& next is KillChild ==> !life.exited && !(termination.phase is HungUp)
            &&& next is Kill && (termination.phase is Begin || termination.phase is HungUp) ==> life.exited
            &&& termination.phase is ChildKilled && !life.exited ==> next is Poll && after.phase == (
            EndPhase::ForcePolled { until: (now + 1_000_000_000) as u128 })
            &&& termination.phase is ChildKilled && life.exited && !life.output_closed ==> next
                == EndNext::Receive(5) && after.phase == (EndPhase::LastOutput {
                until: (now + 100_000_000) as u128,
            })
            &&& termination.phase is Over ==> next is Done && after == termination && changed
                == life
            &&& changed.exited == life.exited
        }),
{
}

/// A session starts as it is asked to: with that launch and size, with that limit on its output and
/// that recording, in a running application that has written nothing yet and whose host has told it
/// nothing.
pub proof fn lemma_sessions_start_as_asked(
    session: Session,
    launch: SessionLaunch,
    options: Options,
    recording: Option<Writer>,
    process_group: Option<i32>,
)
    requires
        session.is_new(launch, options, recording, process_group),
    ensures
        session.launch == launch,
        (session.cols, session.rows) == (options.cols, options.rows),
        (session.cell_width, session.cell_height) == (options.cell_width, options.cell_height),
        session.max_bytes == options.max_bytes,
        session.recording == recording,
        session.life.process_group == process_group,
        !session.life.exited && !session.life.stopped && !session.life.output_closed,
        session.life.last_output is None && session.exit is None,
        session.ansi@.len() == 0 && !session.ansi_truncated,
        !session.capture_input && session.captured_input@.len() == 0,
        session.host.enabled == options.opentui_host,
        session.host.pixel_width == options.cols * options.cell_width,
        session.host.pixel_height == options.rows * options.cell_height,
        !session.host.opentui_replied && !session.host.kitty_replied,
{
}

/// A copy of a launch or of an exit tells all that the launch or the exit tells.
pub proof fn lemma_copies_tell_the_same(
    launch: SessionLaunch,
    copied: SessionLaunch,
    exit: ProcessExit,
    told: ProcessExit,
    index: int,
)
    requires
        copied.same(launch),
        told.same(exit),
        0 <= index < launch.command@.len(),
    ensures
        copied.command@.len() == launch.command@.len(),
        copied.command@[index]@ == launch.command@[index]@,
        copied.cwd@ == launch.cwd@,
        copied.record is Some <==> launch.record is Some,
        launch.record is Some ==> copied.record->0@ == launch.record->0@,
        (copied.cols, copied.rows) == (launch.cols, launch.rows),
        (copied.cell_width, copied.cell_height) == (launch.cell_width, launch.cell_height),
        copied.max_bytes == launch.max_bytes,
        copied.opentui_host == launch.opentui_host,
        copied.color == launch.color,
        (told.code, told.success) == (exit.code, exit.success),
        told.signal is Some <==> exit.signal is Some,
        exit.signal is Some ==> told.signal->0@ == exit.signal->0@,
{
    assert(text::views(copied.command@).len() == text::views(launch.command@).len());
    assert(text::views(copied.command@)[index] == text::views(launch.command@)[index]);
}

} // verus!
