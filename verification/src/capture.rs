//! Capturing terminal output with the replay emulator.
use crate::environment;
use crate::environment::EnvAction;
use crate::frame;
use crate::frame::Frame;
use crate::replay;
use crate::replay::Replay;
use crate::shot;
use crate::shot::{Chunk, Next, Phase, ShotError, Turn};
use crate::text;
use vstd::prelude::*;

verus! {

/// Configuration of a capture. Durations are in nanoseconds.
#[derive(Debug)]
pub struct Options {
    pub cols: u16,
    pub rows: u16,
    pub cell_width: u16,
    pub cell_height: u16,
    pub settle: u128,
    pub deadline: u128,
    pub input: Vec<u8>,
    pub initial_delay: u128,
    pub wait_for: Option<String>,
    pub max_bytes: usize,
    pub opentui_host: bool,
}

/// A visible terminal frame together with its source ANSI/VT stream.
#[derive(Debug)]
pub struct Captured {
    pub frame: Frame,
    pub ansi: Vec<u8>,
}

/// Replays an ANSI/VT byte stream into a terminal of the given size.
pub fn ansi(bytes: Vec<u8>, rows: u16, cols: u16, max_bytes: usize) -> (result: Result<
    Captured,
    ShotError,
>)
    requires
        bytes@.len() <= max_bytes ==> replay::can_emulate(rows, cols) && replay::can_replay(
            rows,
            cols,
            bytes@,
        ),
    ensures
        result is Ok <==> bytes@.len() <= max_bytes,
        result matches Ok(captured) ==> {
            &&& captured.ansi == bytes
            &&& captured.frame@ == replay::replayed_frame(rows, cols, seq![bytes@])
        },
        result matches Err(error) ==> error == (ShotError::InputTooLong { max_bytes }),
{
    if bytes.len() > max_bytes {
        return Err(ShotError::InputTooLong { max_bytes });
    }
    let mut terminal = terminal(rows, cols);
    proof {
        replay::lemma_joined_one(bytes@);
        assert(replay::fed(terminal).push(bytes@) =~= seq![bytes@]);
    }
    terminal.process(bytes.as_slice());
    Ok(Captured { frame: terminal.frame(), ansi: bytes })
}

/// The changes to the environment of a captured application: it is told of a terminal with all
/// colors, and inherits everything else.
pub fn configure_environment() -> (actions: Vec<EnvAction>)
    ensures
        environment::changes(actions@) == seq![
            environment::set_to("TERM"@, "xterm-truecolor"@),
            environment::set_to("COLORTERM"@, "truecolor"@),
        ],
{
    let mut actions: Vec<EnvAction> = Vec::new();
    environment::push_set(&mut actions, "TERM", "xterm-truecolor");
    environment::push_set(&mut actions, "COLORTERM", "truecolor");
    assert(environment::changes(actions@) =~= seq![
        environment::set_to("TERM"@, "xterm-truecolor"@),
        environment::set_to("COLORTERM"@, "truecolor"@),
    ]);
    actions
}

/// An empty terminal.
pub fn terminal(rows: u16, cols: u16) -> (terminal: Replay)
    requires
        replay::can_emulate(rows, cols),
    ensures
        replay::fed(terminal) == Seq::<Seq<u8>>::empty(),
        replay::made_with(terminal) == (rows, cols),
{
    Replay::new(rows, cols)
}

/// Keeps terminal output up to a limit. Output that does not fit is refused as a whole.
pub fn retain(ansi: &mut Vec<u8>, bytes: &[u8], max_bytes: usize) -> (result: Result<(), ShotError>)
    ensures
        result is Ok <==> old(ansi)@.len() + bytes@.len() <= max_bytes,
        result is Ok ==> final(ansi)@ == old(ansi)@ + bytes@,
        result matches Err(error) ==> final(ansi)@ == old(ansi)@ && error
            == (ShotError::OutputTooLong { max_bytes }),
{
    shot::retain(ansi, bytes, max_bytes)
}

/// Checks that there is a command to capture.
pub fn check_launch(command: &Vec<String>) -> (result: Result<(), ShotError>)
    ensures
        result is Ok <==> command@.len() > 0,
        result matches Err(error) ==> error is NoCommand,
{
    if command.len() == 0 {
        Err(ShotError::NoCommand)
    } else {
        Ok(())
    }
}

/// The question for the first palette color.
pub open spec fn palette_question() -> Seq<u8> {
    vstd::utf8::encode_utf8("\x1b]4;0;?\x07"@)
}

/// How the host introduces itself to an application that asks for both default colors.
pub open spec fn host_introduction(pixel_height: u32, pixel_width: u32) -> Seq<char> {
    shot::color_answer("10"@, frame::default_foreground()) + shot::color_answer(
        "11"@,
        frame::default_background(),
    ) + "\x1bP>|cellshot "@ + shot::VERSION@
        + "\x1b\\\x1b[1;1R\x1b[?1016;0$y\x1b[?2027;0$y\x1b[?2031;2$y\x1b[?1004;1$y\x1b[?2004;2$y\x1b[?2026;2$y\x1b[?0u\x1b[1;1R\x1b[1;1R\x1b[4;"@
        + text::decimal_text(pixel_height as nat) + ";"@ + text::decimal_text(pixel_width as nat)
        + "t\x1b[?6c"@
}

/// The terminal that a captured application talks to.
#[derive(Debug)]
pub struct Host {
    pub enabled: bool,
    pub opentui_replied: bool,
    pub palette_replied: bool,
    pub kitty_replied: bool,
    pub probe: Vec<u8>,
    pub pixel_width: u32,
    pub pixel_height: u32,
}

impl Host {
    /// Whether the introduction is owed once `output` was written.
    pub open spec fn introduces(&self, output: Seq<u8>) -> bool {
        !self.opentui_replied && text::occurs(self.probe@ + output, shot::opentui_question())
    }

    /// Whether the first palette color is owed once `output` was written.
    pub open spec fn tells_palette(&self, output: Seq<u8>) -> bool {
        !self.palette_replied && text::occurs(self.probe@ + output, palette_question())
    }

    /// Whether an answer on graphics support is owed once `output` was written.
    pub open spec fn accepts_graphics(&self, output: Seq<u8>) -> bool {
        !self.kitty_replied && text::occurs(self.probe@ + output, shot::kitty_question())
    }

    /// What the host answers to `output`.
    pub open spec fn answer(&self, output: Seq<u8>) -> Seq<u8> {
        if !self.enabled {
            Seq::empty()
        } else {
            (if self.introduces(output) {
                vstd::utf8::encode_utf8(host_introduction(self.pixel_height, self.pixel_width))
            } else {
                Seq::empty()
            }) + (if self.tells_palette(output) {
                vstd::utf8::encode_utf8("\x1b]4;0;rgb:0000/0000/0000\x1b\\"@)
            } else {
                Seq::empty()
            }) + (if self.accepts_graphics(output) {
                vstd::utf8::encode_utf8("\x1b_Gi=31337;OK\x1b\\"@)
            } else {
                Seq::empty()
            })
        }
    }

    /// Whether this is the host `before` once it has answered `output`.
    pub open spec fn has_answered(&self, before: Host, output: Seq<u8>) -> bool {
        &&& self.enabled == before.enabled
        &&& self.pixel_width == before.pixel_width
        &&& self.pixel_height == before.pixel_height
        &&& !before.enabled ==> *self == before
        &&& before.enabled ==> {
            &&& self.opentui_replied == (before.opentui_replied || before.introduces(output))
            &&& self.palette_replied == (before.palette_replied || before.tells_palette(output))
            &&& self.kitty_replied == (before.kitty_replied || before.accepts_graphics(output))
            &&& self.probe@ == shot::last_bytes(
                before.probe@ + output,
                shot::PROBE_BYTES as int,
            )
        }
    }

    /// A host for an application with these options.
    pub fn new(options: &Options) -> (host: Host)
        ensures
            host.enabled == options.opentui_host,
            !host.opentui_replied,
            !host.palette_replied,
            !host.kitty_replied,
            host.probe@ == Seq::<u8>::empty(),
            host.pixel_width == options.cols * options.cell_width,
            host.pixel_height == options.rows * options.cell_height,
    {
        Host {
            enabled: options.opentui_host,
            opentui_replied: false,
            palette_replied: false,
            kitty_replied: false,
            probe: Vec::new(),
            pixel_width: shot::pixels(options.cols, options.cell_width),
            pixel_height: shot::pixels(options.rows, options.cell_height),
        }
    }

    /// Answers what an application asks in its output.
    pub fn respond(&mut self, output: &[u8]) -> (response: Vec<u8>)
        ensures
            response@ == old(self).answer(output@),
            final(self).has_answered(*old(self), output@),
    {
        let mut response: Vec<u8> = Vec::new();
        if !self.enabled {
            return response;
        }
        text::append_bytes(&mut self.probe, output);
        if !self.opentui_replied && text::bytes_contain(
            self.probe.as_slice(),
            "\x1b]10;?\x07\x1b]11;?\x07".as_bytes(),
        ) {
            let introduction = introduce(self.pixel_height, self.pixel_width);
            text::append_bytes(&mut response, introduction.as_slice());
            self.opentui_replied = true;
        }
        if !self.palette_replied && text::bytes_contain(
            self.probe.as_slice(),
            "\x1b]4;0;?\x07".as_bytes(),
        ) {
            text::append_text(&mut response, "\x1b]4;0;rgb:0000/0000/0000\x1b\\");
            self.palette_replied = true;
        }
        if !self.kitty_replied && text::bytes_contain(
            self.probe.as_slice(),
            "\x1b_Gi=31337".as_bytes(),
        ) {
            text::append_text(&mut response, "\x1b_Gi=31337;OK\x1b\\");
            self.kitty_replied = true;
        }
        assert(response@ =~= old(self).answer(output@));
        shot::keep_last(&mut self.probe, shot::PROBE_BYTES);
        response
    }
}

fn introduce(pixel_height: u32, pixel_width: u32) -> (introduction: Vec<u8>)
    ensures
        introduction@ == vstd::utf8::encode_utf8(host_introduction(pixel_height, pixel_width)),
{
    let mut introduction: Vec<u8> = Vec::new();
    shot::append_color_response(&mut introduction, "10", frame::default_foreground());
    shot::append_color_response(&mut introduction, "11", frame::default_background());
    let mut rest = String::new();
    rest.append("\x1bP>|cellshot ");
    rest.append(shot::VERSION);
    rest.append(
        "\x1b\\\x1b[1;1R\x1b[?1016;0$y\x1b[?2027;0$y\x1b[?2031;2$y\x1b[?1004;1$y\x1b[?2004;2$y\x1b[?2026;2$y\x1b[?0u\x1b[1;1R\x1b[1;1R\x1b[4;",
    );
    rest.append(text::decimal(pixel_height as u64).as_str());
    rest.append(";");
    rest.append(text::decimal(pixel_width as u64).as_str());
    rest.append("t\x1b[?6c");
    text::append_text(&mut introduction, rest.as_str());
    proof {
        let colors = shot::color_answer("10"@, frame::default_foreground()) + shot::color_answer(
            "11"@,
            frame::default_background(),
        );
        text::lemma_encode_concat(
            shot::color_answer("10"@, frame::default_foreground()),
            shot::color_answer("11"@, frame::default_background()),
        );
        text::lemma_encode_concat(colors, rest@);
        assert(colors + rest@ =~= host_introduction(pixel_height, pixel_width));
        assert(introduction@ =~= vstd::utf8::encode_utf8(colors + rest@));
    }
    introduction
}

/// The capture of one application. Instants are nanoseconds since it was launched.
#[derive(Clone, Copy, Debug, PartialEq, Eq, Structural)]
pub struct Run {
    pub deadline: u128,
    pub delay_end: u128,
    pub settle: u128,
    /// When output last came while waiting for it to settle.
    pub last_output: Option<u128>,
    pub last_chunk: Option<Chunk>,
    pub closed: bool,
    pub phase: Phase,
}

impl Options {
    /// What a capture with these options waits for and sends.
    pub open spec fn goal(&self) -> shot::Goal {
        shot::Goal {
            wait_for: match self.wait_for {
                Some(pattern) => Some(pattern@),
                None => None,
            },
            has_input: self.input@.len() > 0,
            delayed: self.initial_delay > 0,
        }
    }
}

impl Run {
    /// Waiting for output, but not past the deadline.
    pub open spec fn receiving(self, now: u128) -> Next {
        Next::Receive {
            timeout: if now >= self.deadline {
                0u128
            } else if self.deadline - now < shot::CHUNK_TIMEOUT {
                (self.deadline - now) as u128
            } else {
                shot::CHUNK_TIMEOUT
            },
        }
    }

    /// Whether waiting for the output to settle is over.
    pub open spec fn settled(self, now: u128) -> bool {
        let quiet = self.last_output is Some && shot::elapsed(self.last_output->0, now)
            >= self.settle;
        match self.last_chunk {
            None => false,
            Some(Chunk::Closed) => true,
            Some(Chunk::Timeout) => now >= self.deadline || quiet,
            Some(Chunk::Output) => quiet,
        }
    }

    /// The end of a capture before input: the text must show, and the input is sent where there
    /// is still someone to take it.
    pub open spec fn concluded(self, goal: shot::Goal, now: u128, visible: Seq<char>) -> (
        Run,
        Next,
    ) {
        if !goal.shown(visible) {
            (Run { phase: Phase::Done, ..self }, Next::PatternMissing)
        } else if !self.closed && now < self.deadline && goal.has_input {
            (
                Run {
                    phase: Phase::SettlingAfterInput,
                    last_output: None,
                    last_chunk: None,
                    ..self
                },
                Next::Send,
            )
        } else {
            (Run { phase: Phase::Done, ..self }, Next::Finish)
        }
    }

    /// What follows once the initial delay is over. Input that has waited for its text is sent at
    /// once; everything else lets the output settle, which counts from then on.
    pub open spec fn matching(self, goal: shot::Goal, now: u128, visible: Seq<char>) -> (
        Run,
        Next,
    ) {
        if !self.closed && now < self.deadline && !goal.shown(visible) {
            (Run { phase: Phase::Pattern, ..self }, self.receiving(now))
        } else if self.closed || now >= self.deadline || (goal.has_input && goal.wait_for is Some) {
            self.concluded(goal, now, visible)
        } else {
            (
                Run { phase: Phase::Settling, last_output: None, last_chunk: None, ..self },
                self.receiving(now),
            )
        }
    }

    /// The next step of a capture.
    pub open spec fn stepped(self, goal: shot::Goal, now: u128, visible: Seq<char>) -> (
        Run,
        Next,
    ) {
        match self.phase {
            Phase::Delay => if !self.closed && now < self.delay_end {
                (self, self.receiving(now))
            } else {
                self.matching(goal, now, visible)
            },
            Phase::Pattern => self.matching(goal, now, visible),
            Phase::Settling => if self.settled(now) {
                self.concluded(goal, now, visible)
            } else {
                (self, self.receiving(now))
            },
            Phase::SettlingAfterInput => if self.settled(now) {
                (Run { phase: Phase::Done, ..self }, Next::Finish)
            } else {
                (self, self.receiving(now))
            },
            Phase::Done => (self, Next::Finish),
        }
    }

    /// Starts capturing an application that was launched at zero.
    pub fn start(options: &Options) -> (run: Run)
        ensures
            run == (Run {
                deadline: options.deadline,
                delay_end: if options.initial_delay < options.deadline {
                    options.initial_delay
                } else {
                    options.deadline
                },
                settle: options.settle,
                last_output: None,
                last_chunk: None,
                closed: false,
                phase: Phase::Delay,
            }),
    {
        Run {
            deadline: options.deadline,
            delay_end: if options.initial_delay < options.deadline {
                options.initial_delay
            } else {
                options.deadline
            },
            settle: options.settle,
            last_output: None,
            last_chunk: None,
            closed: false,
            phase: Phase::Delay,
        }
    }

    fn receive(&self, now: u128) -> (next: Next)
        ensures
            next == self.receiving(now),
    {
        let left: u128 = self.deadline.saturating_sub(now);
        Next::Receive {
            timeout: if left < shot::CHUNK_TIMEOUT {
                left
            } else {
                shot::CHUNK_TIMEOUT
            },
        }
    }

    fn is_settled(&self, now: u128) -> (result: bool)
        ensures
            result == self.settled(now),
    {
        let quiet = match self.last_output {
            Some(last) => now.saturating_sub(last) >= self.settle,
            None => false,
        };
        match self.last_chunk {
            None => false,
            Some(Chunk::Closed) => true,
            Some(Chunk::Timeout) => now >= self.deadline || quiet,
            Some(Chunk::Output) => quiet,
        }
    }

    fn conclude(
        &mut self,
        options: &Options,
        now: u128,
        shown: bool,
        Ghost(visible): Ghost<Seq<char>>,
    ) -> (next: Next)
        requires
            shown == options.goal().shown(visible),
        ensures
            (*final(self), next) == old(self).concluded(options.goal(), now, visible),
    {
        if !shown {
            self.phase = Phase::Done;
            return Next::PatternMissing;
        }
        if !self.closed && now < self.deadline && options.input.len() > 0 {
            self.phase = Phase::SettlingAfterInput;
            self.last_output = None;
            self.last_chunk = None;
            return Next::Send;
        }
        self.phase = Phase::Done;
        Next::Finish
    }

    /// Decides what to do at `now`, when the terminal shows `visible`.
    pub fn step(&mut self, options: &Options, now: u128, visible: &str) -> (next: Next)
        ensures
            (*final(self), next) == old(self).stepped(options.goal(), now, visible@),
    {
        let shown = match &options.wait_for {
            Some(pattern) => text::text_contains(visible, pattern.as_str()),
            None => true,
        };
        assert(shown == options.goal().shown(visible@));
        match self.phase {
            Phase::Done => {
                return Next::Finish;
            },
            Phase::SettlingAfterInput => {
                if self.is_settled(now) {
                    self.phase = Phase::Done;
                    return Next::Finish;
                }
                return self.receive(now);
            },
            Phase::Settling => {
                if self.is_settled(now) {
                    return self.conclude(options, now, shown, Ghost(visible@));
                }
                return self.receive(now);
            },
            Phase::Delay => {
                if !self.closed && now < self.delay_end {
                    return self.receive(now);
                }
            },
            Phase::Pattern => {},
        }
        if !self.closed && now < self.deadline && !shown {
            self.phase = Phase::Pattern;
            return self.receive(now);
        }
        if self.closed || now >= self.deadline || (options.input.len() > 0
            && options.wait_for.is_some()) {
            return self.conclude(options, now, shown, Ghost(visible@));
        }
        self.phase = Phase::Settling;
        self.last_output = None;
        self.last_chunk = None;
        self.receive(now)
    }

    /// Notes what waiting for output brought at `now`.
    pub fn note(&mut self, chunk: Chunk, now: u128)
        ensures
            *final(self) == (Run {
                last_chunk: Some(chunk),
                last_output: if chunk == Chunk::Output {
                    Some(now)
                } else {
                    old(self).last_output
                },
                closed: old(self).closed || chunk == Chunk::Closed,
                ..*old(self)
            }),
            *final(self) == old(self).noted(chunk, now),
    {
        match chunk {
            Chunk::Output => {
                self.last_output = Some(now);
            },
            Chunk::Closed => {
                self.closed = true;
            },
            Chunk::Timeout => {},
        }
        self.last_chunk = Some(chunk);
    }
}

/// A capture only moves forward, so it sends its input at most once, and it never waits past its
/// deadline.
pub proof fn lemma_capture_advances(run: Run, goal: shot::Goal, now: u128, visible: Seq<char>)
    ensures
        ({
            let (after, next) = run.stepped(goal, now, visible);
            &&& shot::phases_left(after.phase) <= shot::phases_left(run.phase)
            &&& next is Send ==> shot::phases_left(run.phase) > 1 && after.phase
                == Phase::SettlingAfterInput && goal.has_input && !run.closed
            &&& next matches Next::Receive { timeout } ==> timeout <= shot::CHUNK_TIMEOUT && (
            timeout == 0 || now + timeout <= run.deadline)
            &&& next is Finish || next is PatternMissing ==> after.phase == Phase::Done
        }),
{
}

impl Run {
    /// What it is once waiting for output has brought `chunk` at `now`.
    pub open spec fn noted(self, chunk: Chunk, now: u128) -> Run {
        Run {
            last_chunk: Some(chunk),
            last_output: if chunk == Chunk::Output {
                Some(now)
            } else {
                self.last_output
            },
            closed: self.closed || chunk == Chunk::Closed,
            ..self
        }
    }

    /// What follows when waiting for output brought something and the next step is taken.
    pub open spec fn turned(self, goal: shot::Goal, turn: Turn) -> (Run, Next) {
        self.noted(turn.chunk, turn.at).stepped(goal, turn.now, turn.visible)
    }

    /// What it is after the first `count` turns.
    pub open spec fn after_turns(self, goal: shot::Goal, turns: Seq<Turn>, count: nat) -> Run
        decreases count,
    {
        if count == 0 {
            self
        } else {
            self.after_turns(goal, turns, (count - 1) as nat).turned(goal, turns[count - 1]).0
        }
    }
}

/// A step of a capture ends it only with a reason: the terminal was closed, the deadline has passed, or
/// output came and then none for the settling time. Input that there is to send has been sent by
/// then, unless the terminal was closed or it was too late for it, and the text waited for shows.
pub proof fn lemma_capture_finishes_with_a_reason(
    run: Run,
    options: Options,
    now: u128,
    visible: Seq<char>,
)
    requires
        run.phase != Phase::Done,
        run.stepped(options.goal(), now, visible).1 is Finish,
    ensures
        run.closed || run.last_chunk == Some(Chunk::Closed) || now >= run.deadline || (
        run.last_output is Some && (run.last_output->0 + run.settle <= now || run.settle == 0)),
        run.phase != Phase::SettlingAfterInput ==> options.input@.len() == 0 || run.closed || now
            >= run.deadline,
        run.phase != Phase::SettlingAfterInput && options.wait_for is Some ==> text::occurs(
            visible,
            options.wait_for->0@,
        ),
{
}

/// Input is sent only when there is some, the delay is over, the text waited for shows, the terminal
/// is open and there is still time. Without a text to wait for the output has settled first.
/// Only output that comes afterwards counts from then on.
pub proof fn lemma_capture_sends_at_the_right_moment(
    run: Run,
    options: Options,
    now: u128,
    visible: Seq<char>,
)
    requires
        run.stepped(options.goal(), now, visible).1 is Send,
    ensures
        options.input@.len() > 0,
        !run.closed,
        now < run.deadline,
        run.phase == Phase::Delay ==> now >= run.delay_end,
        options.wait_for matches Some(pattern) ==> text::occurs(visible, pattern@),
        options.wait_for is None ==> run.phase == Phase::Settling
            && run.last_output is Some && (run.last_output->0 + run.settle <= now || run.settle
            == 0) || run.last_chunk == Some(Chunk::Closed),
        ({
            let after = run.stepped(options.goal(), now, visible).0;
            &&& after.phase == Phase::SettlingAfterInput
            &&& after.last_output is None
            &&& after.last_chunk is None
        }),
{
}

/// What is waited for is waited for: the delay, the text while the terminal is open and there is
/// time, and the output to settle. It is not waited for any longer either: input is sent once its
/// text shows, and a screen that has settled is taken.
pub proof fn lemma_capture_waits_as_long_as_needed(
    run: Run,
    options: Options,
    now: u128,
    visible: Seq<char>,
)
    requires
        !run.closed,
        run.last_chunk != Some(Chunk::Closed),
        now < run.deadline,
    ensures
        ({
            let (after, next) = run.stepped(options.goal(), now, visible);
            let shown = options.wait_for is Some ==> text::occurs(visible, options.wait_for->0@);
            let started = run.phase == Phase::Pattern || (run.phase == Phase::Delay && now
                >= run.delay_end);
            let settling = run.phase == Phase::Settling || run.phase == Phase::SettlingAfterInput;
            let quiet = run.last_chunk is Some && run.last_output is Some && (run.last_output->0
                + run.settle <= now || run.settle == 0);
            &&& run.phase == Phase::Delay && now < run.delay_end ==> next is Receive
            &&& started && !shown ==> next is Receive && after.phase == Phase::Pattern
            &&& started && shown && options.input@.len() > 0 && options.wait_for is Some ==> next is Send
            &&& started && shown && !(options.input@.len() > 0 && options.wait_for is Some) ==> next
                is Receive && after.phase == Phase::Settling
            &&& settling && !quiet ==> next is Receive && after == run
            &&& run.phase == Phase::SettlingAfterInput && quiet ==> next is Finish
            &&& run.phase == Phase::Settling && quiet && shown ==> if options.input@.len() > 0 {
                next is Send
            } else {
                next is Finish
            }
            &&& run.phase == Phase::Settling && quiet && !shown ==> next is PatternMissing
        }),
{
}

/// Where the text waited for does not show, that is told, but only once the terminal was closed, it
/// is too late or the output has settled. Once the input was sent the text is not asked for again.
pub proof fn lemma_capture_misses_only_what_does_not_show(
    run: Run,
    options: Options,
    now: u128,
    visible: Seq<char>,
)
    ensures
        run.stepped(options.goal(), now, visible).1 is PatternMissing ==> {
            &&& options.wait_for matches Some(pattern) && !text::occurs(visible, pattern@)
            &&& run.closed || now >= run.deadline || run.phase == Phase::Settling
            &&& run.phase != Phase::SettlingAfterInput
        },
        options.wait_for is Some && !text::occurs(visible, options.wait_for->0@) && run.phase
            == Phase::Pattern && (run.closed || now >= run.deadline) ==> run.stepped(
            options.goal(),
            now,
            visible,
        ).1 is PatternMissing,
{
}

/// While there is time, the next output is waited for 20 ms or until the deadline, whichever is
/// sooner. No step changes the deadline, the delay or the settling time, or forgets that the
/// terminal was closed.
pub proof fn lemma_capture_keeps_its_times(run: Run, options: Options, now: u128, visible: Seq<char>)
    ensures
        ({
            let (after, next) = run.stepped(options.goal(), now, visible);
            &&& next matches Next::Receive { timeout } ==> {
                &&& now + 20_000_000 <= run.deadline ==> timeout == 20_000_000
                &&& now <= run.deadline < now + 20_000_000 ==> timeout == run.deadline - now
                &&& now > run.deadline ==> timeout == 0
            }
            &&& after.deadline == run.deadline
            &&& after.delay_end == run.delay_end
            &&& after.settle == run.settle
            &&& after.closed == run.closed
        }),
{
}

/// Whether output came in one of the first `count` turns at `at`, and none after it.
pub open spec fn last_came_at(turns: Seq<Turn>, count: int, at: u128) -> bool {
    exists|k: int|
        #![trigger turns[k]]
        0 <= k < count && turns[k].chunk == Chunk::Output && turns[k].at == at && forall|j: int|
            k < j < count ==> (#[trigger] turns[j]).chunk != Chunk::Output
}

proof fn lemma_quiet_turn(turns: Seq<Turn>, count: int, at: u128)
    requires
        0 <= count < turns.len(),
        last_came_at(turns, count, at),
        turns[count].chunk != Chunk::Output,
    ensures
        last_came_at(turns, count + 1, at),
{
    let k = choose|k: int|
        #![trigger turns[k]]
        0 <= k < count && turns[k].chunk == Chunk::Output && turns[k].at == at && forall|j: int|
            k < j < count ==> (#[trigger] turns[j]).chunk != Chunk::Output;
    assert(turns[k].at == at);
    assert forall|j: int| k < j < count + 1 implies (#[trigger] turns[j]).chunk
        != Chunk::Output by {
    }
}

proof fn lemma_noted_output(turns: Seq<Turn>, count: int)
    requires
        0 <= count < turns.len(),
        turns[count].chunk == Chunk::Output,
    ensures
        last_came_at(turns, count + 1, turns[count].at),
{
}

proof fn lemma_waiting_keeps(run: Run, goal: shot::Goal, turn: Turn)
    requires
        run.turned(goal, turn).1 is Receive,
    ensures
        ({
            let after = run.turned(goal, turn).0;
            &&& after.phase != Phase::Done
            &&& after.deadline == run.deadline
            &&& after.settle == run.settle
            &&& after.closed == (run.closed || turn.chunk == Chunk::Closed)
            &&& after.last_chunk is None || after.last_chunk == Some(turn.chunk)
            &&& after.last_output is None || after.last_output == if turn.chunk
                == Chunk::Output {
                Some(turn.at)
            } else {
                run.last_output
            }
        }),
{
}

proof fn lemma_output_is_remembered(run: Run, goal: shot::Goal, turns: Seq<Turn>, count: nat)
    requires
        run.last_output is None,
        !run.closed,
        run.last_chunk is None,
        run.phase != Phase::Done,
        count <= turns.len(),
        forall|k: nat|
            k < count ==> (#[trigger] run.after_turns(goal, turns, k)).turned(
                goal,
                turns[k as int],
            ).1 is Receive,
    ensures
        ({
            let after = run.after_turns(goal, turns, count);
            &&& after.phase != Phase::Done
            &&& after.deadline == run.deadline
            &&& after.settle == run.settle
            &&& after.last_output matches Some(at) ==> last_came_at(turns, count as int, at)
            &&& after.closed || after.last_chunk == Some(Chunk::Closed) ==> exists|k: int|
                0 <= k < count && (#[trigger] turns[k]).chunk == Chunk::Closed
        }),
    decreases count,
{
    if count > 0 {
        let last = count - 1;
        lemma_output_is_remembered(run, goal, turns, last as nat);
        let before = run.after_turns(goal, turns, last as nat);
        let turn = turns[last];
        assert(before.turned(goal, turn).1 is Receive);
        lemma_waiting_keeps(before, goal, turn);
        if turn.chunk == Chunk::Output {
            lemma_noted_output(turns, last);
        } else if let Some(at) = before.last_output {
            lemma_quiet_turn(turns, last, at);
        }
    }
}

proof fn lemma_turns_settle(run: Run, options: Options, turns: Seq<Turn>)
    requires
        run.last_output is None,
        !run.closed,
        run.last_chunk is None,
        run.phase != Phase::Done,
        turns.len() > 0,
        forall|k: nat|
            k < turns.len() - 1 ==> (#[trigger] run.after_turns(options.goal(), turns, k)).turned(
                options.goal(),
                turns[k as int],
            ).1 is Receive,
        run.after_turns(options.goal(), turns, (turns.len() - 1) as nat).turned(
            options.goal(),
            turns.last(),
        ).1 is Finish,
    ensures
        ({
            let now = turns.last().now;
            ||| now >= run.deadline
            ||| exists|k: int| 0 <= k < turns.len() && (#[trigger] turns[k]).chunk == Chunk::Closed
            ||| exists|at: u128|
                #[trigger] last_came_at(turns, turns.len() as int, at) && (at + run.settle <= now
                    || run.settle == 0)
        }),
{
    let count = (turns.len() - 1) as nat;
    let last = turns[count as int];
    lemma_output_is_remembered(run, options.goal(), turns, count);
    let before = run.after_turns(options.goal(), turns, count).noted(last.chunk, last.at);
    lemma_capture_finishes_with_a_reason(before, options, last.now, last.visible);
    if last.chunk == Chunk::Closed {
        assert(turns[count as int].chunk == Chunk::Closed);
    } else if last.now < run.deadline && !before.closed && before.last_chunk != Some(
        Chunk::Closed,
    ) {
        let at = before.last_output->0;
        if last.chunk == Chunk::Output {
            lemma_noted_output(turns, count as int);
        } else {
            lemma_quiet_turn(turns, count as int, at);
        }
        assert(last_came_at(turns, turns.len() as int, at));
    }
}

/// After input was sent, its effect is awaited: output is waited for first of all, and a capture ends
/// only once the terminal was closed, the deadline has passed, or output came after the input and
/// then none for the settling time.
pub proof fn lemma_capture_awaits_the_effect_of_input(
    run: Run,
    options: Options,
    now: u128,
    visible: Seq<char>,
    turns: Seq<Turn>,
)
    requires
        run.stepped(options.goal(), now, visible).1 is Send,
    ensures
        ({
            let sent = run.stepped(options.goal(), now, visible).0;
            &&& forall|later: u128, shown: Seq<char>|
                (#[trigger] sent.stepped(options.goal(), later, shown)).1 is Receive
            &&& turns.len() > 0 && (forall|k: nat|
                k < turns.len() - 1 ==> (#[trigger] sent.after_turns(
                    options.goal(),
                    turns,
                    k,
                )).turned(options.goal(), turns[k as int]).1 is Receive) && sent.after_turns(
                options.goal(),
                turns,
                (turns.len() - 1) as nat,
            ).turned(options.goal(), turns.last()).1 is Finish ==> {
                ||| turns.last().now >= run.deadline
                ||| exists|k: int|
                    0 <= k < turns.len() && (#[trigger] turns[k]).chunk == Chunk::Closed
                ||| exists|at: u128|
                    #[trigger] last_came_at(turns, turns.len() as int, at) && (at + run.settle
                        <= turns.last().now || run.settle == 0)
            }
        }),
{
    let sent = run.stepped(options.goal(), now, visible).0;
    if turns.len() > 0 && (forall|k: nat|
        k < turns.len() - 1 ==> (#[trigger] sent.after_turns(options.goal(), turns, k)).turned(
            options.goal(),
            turns[k as int],
        ).1 is Receive) && sent.after_turns(
        options.goal(),
        turns,
        (turns.len() - 1) as nat,
    ).turned(options.goal(), turns.last()).1 is Finish {
        lemma_turns_settle(sent, options, turns);
    }
}

/// Without input, a capture ends only once the terminal was closed, the deadline has passed, or output
/// came and then none for the settling time.
pub proof fn lemma_capture_awaits_a_settled_screen(run: Run, options: Options, turns: Seq<Turn>)
    requires
        run.phase == Phase::Delay,
        run.last_output is None,
        run.last_chunk is None,
        !run.closed,
        turns.len() > 0,
        forall|k: nat|
            k < turns.len() - 1 ==> (#[trigger] run.after_turns(options.goal(), turns, k)).turned(
                options.goal(),
                turns[k as int],
            ).1 is Receive,
        run.after_turns(options.goal(), turns, (turns.len() - 1) as nat).turned(
            options.goal(),
            turns.last(),
        ).1 is Finish,
    ensures
        ({
            ||| turns.last().now >= run.deadline
            ||| exists|k: int| 0 <= k < turns.len() && (#[trigger] turns[k]).chunk == Chunk::Closed
            ||| exists|at: u128|
                #[trigger] last_came_at(turns, turns.len() as int, at) && (at + run.settle
                    <= turns.last().now || run.settle == 0)
        }),
{
    lemma_turns_settle(run, options, turns);
}

/// A captured application gets an answer to what it asks and has not been told yet: both default
/// colors, the first palette color, and that it may draw graphics. A terminal that is not to answer
/// says nothing.
pub proof fn lemma_capture_answers_what_is_asked(host: Host, output: Seq<u8>)
    ensures
        !host.enabled ==> host.answer(output).len() == 0,
        host.enabled ==> ({
            let seen = host.probe@ + output;
            let asks_colors = text::occurs(
                seen,
                vstd::utf8::encode_utf8("\x1b]10;?\x07\x1b]11;?\x07"@),
            );
            let asks_palette = text::occurs(seen, vstd::utf8::encode_utf8("\x1b]4;0;?\x07"@));
            let asks_graphics = text::occurs(seen, vstd::utf8::encode_utf8("\x1b_Gi=31337"@));
            host.answer(output) == (if asks_colors && !host.opentui_replied {
                vstd::utf8::encode_utf8(host_introduction(host.pixel_height, host.pixel_width))
            } else {
                Seq::empty()
            }) + (if asks_palette && !host.palette_replied {
                vstd::utf8::encode_utf8("\x1b]4;0;rgb:0000/0000/0000\x1b\\"@)
            } else {
                Seq::empty()
            }) + (if asks_graphics && !host.kitty_replied {
                vstd::utf8::encode_utf8("\x1b_Gi=31337;OK\x1b\\"@)
            } else {
                Seq::empty()
            })
        }),
{
}

/// The introduction starts with the default colors and ends with the size in pixels, the height
/// first, and the device attributes.
pub proof fn lemma_capture_introduces_itself(pixel_height: u32, pixel_width: u32)
    ensures
        (shot::color_answer("10"@, frame::Color { r: 229, g: 229, b: 229 }) + shot::color_answer(
            "11"@,
            frame::Color { r: 0, g: 0, b: 0 },
        )).is_prefix_of(host_introduction(pixel_height, pixel_width)),
        (text::decimal_text(pixel_height as nat) + ";"@ + text::decimal_text(pixel_width as nat)
            + "t\x1b[?6c"@).is_suffix_of(host_introduction(pixel_height, pixel_width)),
{
    let whole = host_introduction(pixel_height, pixel_width);
    let colors = shot::color_answer("10"@, frame::Color { r: 229, g: 229, b: 229 }) + shot::color_answer(
        "11"@,
        frame::Color { r: 0, g: 0, b: 0 },
    );
    let size = text::decimal_text(pixel_height as nat) + ";"@ + text::decimal_text(
        pixel_width as nat,
    ) + "t\x1b[?6c"@;
    assert(whole.subrange(0, colors.len() as int) =~= colors);
    assert(whole.subrange(whole.len() - size.len(), whole.len() as int) =~= size);
}

/// What a captured application was told, it is not told again, and its last 64 bytes are looked at
/// once more with what follows.
pub proof fn lemma_capture_remembers(host: Host, before: Host, output: Seq<u8>)
    requires
        host.has_answered(before, output),
        before.enabled,
    ensures
        host.enabled,
        before.opentui_replied ==> host.opentui_replied,
        before.palette_replied ==> host.palette_replied,
        before.kitty_replied ==> host.kitty_replied,
        text::occurs(
            before.probe@ + output,
            vstd::utf8::encode_utf8("\x1b]10;?\x07\x1b]11;?\x07"@),
        ) ==> host.opentui_replied,
        text::occurs(before.probe@ + output, vstd::utf8::encode_utf8("\x1b]4;0;?\x07"@))
            ==> host.palette_replied,
        text::occurs(before.probe@ + output, vstd::utf8::encode_utf8("\x1b_Gi=31337"@))
            ==> host.kitty_replied,
        (host.pixel_width, host.pixel_height) == (before.pixel_width, before.pixel_height),
        host.probe@ == shot::last_bytes(before.probe@ + output, 64),
{
}

/// A capture waits for the text it is told to wait for, sends the input it is told to send, and waits
/// out a delay where there is one.
pub proof fn lemma_capture_does_what_the_options_say(options: Options)
    ensures
        options.goal().wait_for is Some <==> options.wait_for is Some,
        options.wait_for matches Some(pattern) ==> options.goal().wait_for == Some(pattern@),
        options.goal().has_input <==> options.input@.len() != 0,
        options.goal().delayed <==> options.initial_delay != 0,
{
}

/// A host that is not to answer stays as it is.
pub proof fn lemma_capture_host_that_is_off_stays(host: Host, before: Host, output: Seq<u8>)
    requires
        host.has_answered(before, output),
        !before.enabled,
    ensures
        host == before,
{
}

} // verus!
