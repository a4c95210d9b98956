use terminal_control::recording::{Entry, InputOrigin, Writer};
use terminal_control::session::live::{
    batch_wait, launch_settings, retain_recent, Drain, EndNext, EndPhase, ExitNext, Life, Output,
    SendNext, Sending, Session, Termination, WaitNext,
};
use terminal_control::session::{CaptureReason, ProcessExit, SessionState};
use terminal_control::shot::{Options, ShotError};

const MS: u128 = 1_000_000;

fn texts(items: &[&str]) -> Vec<String> {
    items.iter().map(|item| item.to_string()).collect()
}

fn session(options: &Options, recording: Option<Writer>) -> Session {
    let launch = launch_settings(
        &texts(&["/bin/sh", "-c", "sleep 1"]),
        "/tmp".to_owned(),
        None,
        options,
    );
    Session::start(launch, options, recording, Some(42)).unwrap()
}

fn output(at_ms: u64, bytes: &[u8]) -> Output {
    Output {
        at_ms,
        bytes: bytes.to_vec(),
    }
}

#[test]
fn sessions_need_a_command_and_cells() {
    let options = Options::default();
    let launch = launch_settings(&[], "/".to_owned(), None, &options);
    assert!(matches!(
        Session::start(launch, &options, None, None),
        Err(ShotError::NoCommand)
    ));
    let empty = Options { rows: 0, ..Options::default() };
    let launch = launch_settings(&texts(&["sh"]), "/".to_owned(), None, &empty);
    assert!(matches!(
        Session::start(launch, &empty, None, None),
        Err(ShotError::ZeroGeometry)
    ));
}

#[test]
fn status_retains_launch_details() {
    let session = session(&Options::default(), None);
    let status = session.status(false, 0);
    assert_eq!(status.state, SessionState::Running);
    assert_eq!(status.launch.command, ["/bin/sh", "-c", "sleep 1"]);
    assert_eq!(status.launch.cwd, "/tmp");
    assert_eq!(status.idle_for_ms, None);
    assert!(!status.recording);
}

#[test]
fn retained_output_is_the_most_recent() {
    let mut ansi = Vec::new();
    let mut truncated = false;
    retain_recent(&mut ansi, b"12", 4, &mut truncated);
    retain_recent(&mut ansi, b"34", 4, &mut truncated);
    assert!(!truncated);
    assert_eq!(ansi, b"1234");
    retain_recent(&mut ansi, b"5", 4, &mut truncated);
    assert!(truncated);
    assert_eq!(ansi, b"2345");
    retain_recent(&mut ansi, b"6789abc", 4, &mut truncated);
    assert_eq!(ansi, b"9abc");
    retain_recent(&mut ansi, b"", 4, &mut truncated);
    assert_eq!(ansi, b"9abc");

    let mut none = Vec::new();
    let mut lost = false;
    retain_recent(&mut none, b"", 0, &mut lost);
    assert!(!lost);
    retain_recent(&mut none, b"x", 0, &mut lost);
    assert!(lost);
    assert!(none.is_empty());
}

#[test]
fn truncated_output_is_told_and_resizing_still_works() {
    let options = Options { max_bytes: 4, ..Options::default() };
    let mut session = session(&options, None);
    assert!(session.absorb(&output(1, b"123456789")).is_none());
    assert_eq!(session.logs(true).unwrap(), b"6789");
    assert_eq!(session.logs(false), None);
    assert!(session.status(true, 0).logs_truncated);
    assert_eq!(session.needs_resize(4, 3, 9, 18).unwrap(), true);
    assert!(session.resize(4, 3, 9, 18, 5).is_none());
    assert_eq!(session.needs_resize(4, 3, 9, 18).unwrap(), false);
    assert!(session.needs_resize(0, 3, 9, 18).is_err());
    let status = session.status(true, 0);
    assert_eq!((status.cols, status.rows), (4, 3));
    assert_eq!(status.launch.cols, 80);
}

#[test]
fn recorded_sessions_encode_their_timeline() {
    let options = Options::default();
    let (writer, _header) = Writer::new(100, 80, 24, 9, 18).unwrap();
    let mut session = session(&options, Some(writer));
    assert!(matches!(
        session.mark("ready", 130),
        Ok(Entry::Marker { at_ms: 30, name }) if name == "ready"
    ));
    assert!(matches!(
        session.absorb(&output(3, b"ab")),
        Some(Entry::Output { at_ms: 3, ref bytes }) if bytes == b"ab"
    ));
    assert!(matches!(
        session.resize(100, 32, 9, 18, 150),
        Some(Entry::Resize { at_ms: 50, cols: 100, rows: 32, cell_width: 9, cell_height: 18 })
    ));
    session.capture_input = true;
    assert!(matches!(
        session.record_input(InputOrigin::Client, b"x", 160),
        Some(Entry::Input { at_ms: 60, origin: InputOrigin::Client, .. })
    ));
    let response = session.answer_output(b"\x1b[5n", b"\x1b[0n".to_vec());
    assert_eq!(response, b"\x1b[0n");
    assert!(matches!(
        session.finish_output(response, true, 7, 170),
        Some(Entry::Input { at_ms: 70, origin: InputOrigin::Host, ref bytes }) if bytes == b"\x1b[0n"
    ));
    assert!(session.finish_output(b"lost".to_vec(), false, 8, 180).is_none());
    let captured = session.take_captured_input();
    assert_eq!(captured.len(), 2);
    assert_eq!(captured[1].origin, InputOrigin::Host);
    assert!(session.take_captured_input().is_empty());
    assert_eq!(session.life.last_output, Some(8));
}

#[test]
fn unrecorded_sessions_cannot_be_marked() {
    let session = session(&Options::default(), None);
    assert_eq!(
        session.mark("ready", 130).unwrap_err().message(),
        "session was not started with --record"
    );
}

#[test]
fn exits_reject_further_input_before_output_is_drained() {
    let mut session = session(&Options::default(), None);
    assert!(session.send().is_ok());
    assert!(session.keeps_provider());
    session.note_exit(
        ProcessExit { code: 7, signal: None, success: false },
        1000 * MS,
    );
    assert_eq!(session.send().unwrap_err().message(), "session command has exited");
    assert!(!session.keeps_provider());
    let status = session.status(false, 1000 * MS);
    assert_eq!(status.state, SessionState::Exited);
    assert_eq!(status.exit.unwrap().code, 7);
    session.note_exit(ProcessExit { code: 9, signal: None, success: false }, 2000 * MS);
    assert_eq!(session.exit.as_ref().unwrap().code, 7);

    let check = session.life.has_exited(1010 * MS);
    assert!(!check.ended);
    assert_eq!(check.kill, None);
    let check = session.life.has_exited(1050 * MS);
    assert_eq!(check.kill, Some(42));
    assert!(!check.ended);
    let check = session.life.has_exited(1999 * MS);
    assert_eq!(check.kill, None);
    assert!(!check.ended);
    let check = session.life.has_exited(2000 * MS);
    assert!(check.ended);
}

#[test]
fn closed_output_ends_an_exited_session_at_once() {
    let mut life = Life::start(Some(3));
    assert!(!life.has_exited(0).ended);
    life.exited = true;
    life.drain_started = Some(0);
    life.close_output();
    let check = life.has_exited(1);
    assert!(check.ended);
    assert_eq!(check.kill, Some(3));
    assert_eq!(life.has_exited(2).kill, None);
}

#[test]
fn text_is_awaited_until_the_session_ends_or_time_is_up() {
    let session = session(&Options::default(), None);
    assert!(matches!(
        session.wait_for_text("ready >", "ready", true, 5, 9),
        WaitNext::Done
    ));
    assert!(matches!(
        session.wait_for_text("", "ready", false, 5, 4),
        WaitNext::Rest
    ));
    match session.wait_for_text("", "ready", true, 5, 4) {
        WaitNext::Failed(error) => assert_eq!(
            error.message(),
            "session ended before visible terminal included \"ready\""
        ),
        other => panic!("unexpected {other:?}"),
    }
    match session.wait_for_text("", "ready", false, 5, 5) {
        WaitNext::Failed(error) => assert_eq!(
            error.message(),
            "timed out waiting for visible terminal text \"ready\""
        ),
        other => panic!("unexpected {other:?}"),
    }
}

#[test]
fn idleness_counts_from_the_last_output() {
    let mut session = session(&Options::default(), None);
    assert!(matches!(session.wait_for_idle(10, 0, 100, 9), WaitNext::Rest));
    assert!(matches!(session.wait_for_idle(10, 0, 100, 10), WaitNext::Done));
    session.finish_output(Vec::new(), true, 50, 0);
    assert!(matches!(session.wait_for_idle(10, 0, 100, 59), WaitNext::Rest));
    match session.wait_for_idle(60, 0, 100, 100) {
        WaitNext::Failed(error) => assert_eq!(
            error.message(),
            "timed out waiting for terminal output to settle"
        ),
        other => panic!("unexpected {other:?}"),
    }
    session.life.close_output();
    assert!(matches!(session.wait_for_idle(60, 0, 100, 51), WaitNext::Done));
    assert_eq!(session.idle_for(0, 70), 20);
}

#[test]
fn exits_are_awaited_without_failing() {
    let mut session = session(&Options::default(), None);
    assert!(matches!(session.wait_for_exit(false, 5, 4), ExitNext::Rest));
    assert!(matches!(session.wait_for_exit(false, 5, 5), ExitNext::TimedOut));
    session.note_exit(ProcessExit { code: 3, signal: None, success: false }, 1);
    assert!(matches!(
        session.wait_for_exit(true, 5, 4),
        ExitNext::Exited(Some(exit)) if exit.code == 3
    ));
}

#[test]
fn captures_report_why_they_ended() {
    let mut life = Life::start(None);
    assert_eq!(life.capture(false, 0, 0, 0, 0), Some(CaptureReason::Idle));
    assert_eq!(life.capture(false, 10 * MS, 0, 2000 * MS, 20 * MS), None);
    assert_eq!(
        life.capture(false, 10 * MS, 0, 2000 * MS, 50 * MS),
        Some(CaptureReason::Idle)
    );
    assert_eq!(
        life.capture(false, 1000 * MS, 0, 50 * MS, 50 * MS),
        Some(CaptureReason::Deadline)
    );
    life.last_output = Some(40 * MS);
    assert_eq!(life.capture(false, 10 * MS, 0, 2000 * MS, 49 * MS), None);
    assert_eq!(
        life.capture(false, 10 * MS, 0, 2000 * MS, 50 * MS),
        Some(CaptureReason::Idle)
    );
    life.close_output();
    assert_eq!(
        life.capture(false, 10 * MS, 0, 2000 * MS, 41 * MS),
        Some(CaptureReason::OutputClosed)
    );
    assert_eq!(
        life.capture(true, 10 * MS, 0, 2000 * MS, 41 * MS),
        Some(CaptureReason::Exited)
    );
}

#[test]
fn bursts_are_separated_by_pauses() {
    let mut sending = Sending::begin(3, 5);
    let steps = (0..6).map(|_| sending.step()).collect::<Vec<_>>();
    assert_eq!(
        steps,
        [
            SendNext::Write(0),
            SendNext::Rest(5),
            SendNext::Write(1),
            SendNext::Rest(5),
            SendNext::Write(2),
            SendNext::Done
        ]
    );
    let mut at_once = Sending::begin(2, 0);
    assert_eq!(at_once.step(), SendNext::Write(0));
    assert_eq!(at_once.step(), SendNext::Write(1));
    assert_eq!(at_once.step(), SendNext::Done);
}

#[test]
fn draining_kills_descendants_that_hold_the_terminal() {
    let mut life = Life::start(Some(9));
    let drain = Drain::begin(0);
    assert_eq!(drain.step(&mut life, 10 * MS), EndNext::ReceiveBatch);
    assert_eq!(drain.step(&mut life, 50 * MS), EndNext::Kill(9));
    assert_eq!(drain.step(&mut life, 60 * MS), EndNext::ReceiveBatch);
    assert_eq!(drain.step(&mut life, 1000 * MS), EndNext::Done);
    assert!(life.exit_ready);
    assert_eq!(batch_wait(0), Some(10));
    assert_eq!(batch_wait(63), Some(1));
    assert_eq!(batch_wait(64), None);
}

#[test]
fn stopping_hangs_up_before_it_kills() {
    let mut life = Life::start(Some(9));
    let mut termination = Termination::begin();
    assert_eq!(termination.step(&mut life, 0), EndNext::Hangup(9));
    assert_eq!(termination.step(&mut life, 0), EndNext::Poll);
    assert_eq!(termination.step(&mut life, 1 * MS), EndNext::Rest(MS));
    assert_eq!(termination.step(&mut life, 2 * MS), EndNext::Poll);
    assert_eq!(termination.step(&mut life, 149 * MS), EndNext::Rest(MS));
    assert_eq!(termination.step(&mut life, 150 * MS), EndNext::Kill(9));
    assert_eq!(termination.step(&mut life, 150 * MS), EndNext::KillChild);
    assert_eq!(termination.step(&mut life, 151 * MS), EndNext::Poll);
    life.exited = true;
    assert_eq!(termination.step(&mut life, 152 * MS), EndNext::Receive(5));
    life.close_output();
    assert_eq!(termination.step(&mut life, 153 * MS), EndNext::Done);
    assert!(life.stopped);
    assert!(life.exit_ready);
    assert_eq!(life.process_group, None);
    assert_eq!(termination.phase, EndPhase::Over);

    let mut again = Termination::begin();
    assert_eq!(again.step(&mut life, 154 * MS), EndNext::Done);
}

#[test]
fn stopping_reads_the_last_words_of_an_application_that_hangs_up() {
    let mut life = Life::start(Some(9));
    let mut termination = Termination::begin();
    assert_eq!(termination.step(&mut life, 0), EndNext::Hangup(9));
    assert_eq!(termination.step(&mut life, 0), EndNext::Poll);
    life.exited = true;
    assert_eq!(termination.step(&mut life, 1 * MS), EndNext::ReceiveBatch);
    life.close_output();
    assert_eq!(termination.step(&mut life, 2 * MS), EndNext::Kill(9));
    assert_eq!(termination.step(&mut life, 2 * MS), EndNext::Done);
    assert!(life.exit_ready);
}
