use terminal_control::capture;
use terminal_control::replay::Replay;
use terminal_control::session::live::{
    launch_settings, EndNext, ExitNext, Output, Session, Termination, REST,
};
use terminal_control::session::{CaptureReason, ProcessExit, SessionState};
use terminal_control::shot::{
    keep_piped, take_shot, LinefeedNormalizer, Options, PipeEvent, PipeNext, PipeRun,
};

const MS: u128 = 1_000_000;

/// An application that does what it does at given times, together with its session.
struct Simulated {
    session: Session,
    terminal: Replay,
    /// What is written, and when.
    writes: Vec<(u128, Vec<u8>)>,
    exit: Option<(u128, u32)>,
    now: u128,
}

impl Simulated {
    fn start(command: &str, writes: Vec<(u128, Vec<u8>)>, exit: Option<(u128, u32)>) -> Self {
        let options = Options::default();
        let command = ["sh".to_owned(), "-c".to_owned(), command.to_owned()];
        let launch = launch_settings(&command, "/tmp".to_owned(), None, &options);
        Self {
            session: Session::start(launch, &options, None, Some(42)).unwrap(),
            terminal: Replay::new(options.rows, options.cols),
            writes,
            exit,
            now: 0,
        }
    }

    fn pump(&mut self) {
        while !self.writes.is_empty() && self.writes[0].0 <= self.now {
            let (_, bytes) = self.writes.remove(0);
            let at_ms = (self.now / MS) as u64;
            self.terminal.process(&bytes);
            assert!(self.session.absorb(&Output { at_ms, bytes }).is_none());
            let response = self.session.answer_output(b"", Vec::new());
            self.session.finish_output(response, true, self.now, at_ms);
        }
        if let Some((at, code)) = self.exit {
            if at <= self.now && self.session.exit.is_none() {
                let exit = ProcessExit {
                    code,
                    signal: None,
                    success: code == 0,
                };
                self.session.note_exit(exit, self.now);
                self.session.life.close_output();
            }
        }
    }

    fn ended(&mut self) -> bool {
        self.session.exit.is_some() && self.session.life.has_exited(self.now).ended
    }

    fn capture(&mut self, settle: u128, deadline: u128) -> CaptureReason {
        let started = self.now;
        loop {
            self.pump();
            let ended = self.ended();
            let life = &self.session.life;
            if let Some(reason) =
                life.capture(ended, settle, started, started + deadline, self.now)
            {
                return reason;
            }
            self.now += REST;
        }
    }
}

#[test]
fn capture_reports_a_deadline_instead_of_implying_idle() {
    let writes = (0..1000).map(|index| (index * MS, vec![b'x'; 64])).collect();
    let mut application = Simulated::start("while :; do printf x; sleep 0.001; done", writes, None);
    assert_eq!(
        application.capture(1000 * MS, 50 * MS),
        CaptureReason::Deadline
    );
    assert_eq!(application.now, 50 * MS);
}

#[test]
fn short_settling_waits_for_initial_output_grace() {
    let mut application = Simulated::start(
        "sleep 0.02; printf READY",
        vec![(20 * MS, b"READY".to_vec())],
        Some((21 * MS, 0)),
    );
    application.capture(10 * MS, 2000 * MS);
    assert_eq!(application.terminal.frame().text(), "READY");
}

#[test]
fn waits_for_exit_without_polling_status() {
    let mut application = Simulated::start("exit 3", Vec::new(), Some((5 * MS, 3)));
    let exit = loop {
        application.pump();
        let ended = application.ended();
        match application
            .session
            .wait_for_exit(ended, 2000 * MS, application.now)
        {
            ExitNext::Exited(exit) => break exit.unwrap(),
            ExitNext::TimedOut => panic!("the application has exited"),
            ExitNext::Rest => application.now += REST,
        }
    };
    assert_eq!(exit.code, 3);
    let status = application.session.status(false, application.now);
    assert_eq!(status.state, SessionState::Exited);
}

#[test]
fn stopping_allows_a_hangup_handler_to_run_before_forcing_exit() {
    let mut application = Simulated::start(
        "trap 'printf HUP-SEEN; exit 0' HUP; printf READY; while :; do :; done",
        vec![(0, b"READY".to_vec())],
        None,
    );
    application.pump();
    let mut termination = Termination::begin();
    let mut hung_up = false;
    loop {
        match termination.step(&mut application.session.life, application.now) {
            EndNext::Hangup(group) => {
                assert_eq!(group, 42);
                hung_up = true;
                application.writes.push((application.now, b"HUP-SEEN".to_vec()));
                application.exit = Some((application.now, 0));
            }
            EndNext::Kill(_) | EndNext::KillChild => {
                assert!(hung_up);
                assert!(application.session.exit.is_some());
            }
            EndNext::Rest(duration) => application.now += duration,
            EndNext::Poll | EndNext::ReceiveBatch | EndNext::Receive(_) => {
                application.pump();
                application.now += MS;
            }
            EndNext::Done => break,
        }
    }
    let logs = application.session.logs(true).unwrap();
    assert!(logs.windows(b"HUP-SEEN".len()).any(|bytes| bytes == b"HUP-SEEN"));
}

#[test]
fn pipe_command_captures_non_tty_output() {
    let options = Options {
        cols: 20,
        rows: 4,
        settle: 0,
        deadline: 2000 * MS,
        max_bytes: 1024,
        ..Options::default()
    };
    let mut events = vec![
        (PipeEvent::StreamClosed, Vec::new()),
        (PipeEvent::StreamClosed, Vec::new()),
        (PipeEvent::Output, b"one\ntwo\n".to_vec()),
    ];
    let mut normalizer = LinefeedNormalizer::default();
    let mut ansi = Vec::new();
    let mut run = PipeRun::start(&options);
    while let PipeNext::Receive { .. } = run.step(0) {
        let (event, bytes) = events.pop().unwrap();
        keep_piped(&mut normalizer, &mut ansi, &bytes, options.max_bytes).unwrap();
        run.note(event, events.is_empty());
    }
    let replayed = capture::ansi(ansi, options.rows, options.cols, options.max_bytes).unwrap();
    let visible = replayed.frame.text();
    let captured = take_shot(&options, replayed.frame, &visible, replayed.ansi).unwrap();

    assert_eq!(captured.frame.text(), "one\ntwo");
    assert!(captured.ansi.windows(2).any(|window| window == b"\r\n"));
}
