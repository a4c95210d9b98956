use serde_json::Value;
use terminal_control::semantic::{
    check_timeout, deadline_unix_ms, has_capability, remaining, response_in_time, socket_file, Application,
    Download, Exchange, Hello, Host, Peek, Peer, PumpEvent, PumpNext, ReadEvent, SnapshotEvent,
    SnapshotNext, SnapshotReply, SocketSearch, TransferNext, Upload, WriteEvent, SOCKET_TRIES,
};
use terminal_control::session::{semantic_response, Response, SemanticSnapshotResult};

const MS: u128 = 1_000_000;

fn hello(name: &str, capabilities: &[&str]) -> Hello {
    Hello {
        kind: "hello".to_owned(),
        protocol_version: 1,
        application: Application {
            name: name.to_owned(),
            version: None,
        },
        capabilities: capabilities.iter().map(|item| item.to_string()).collect(),
    }
}

fn connect(host: &mut Host, hello: Hello, now: u128) {
    assert_eq!(host.pump(), PumpNext::Accept);
    assert_eq!(host.pump_step(PumpEvent::Accepted, now), PumpNext::Accept);
    assert_eq!(host.pump_step(PumpEvent::NoMore, now), PumpNext::Read);
    assert_eq!(
        host.pump_step(PumpEvent::Read(ReadEvent::Bytes(b"{}".to_vec())), now),
        PumpNext::Read
    );
    assert_eq!(
        host.pump_step(PumpEvent::Read(ReadEvent::Bytes(b"\n".to_vec())), now),
        PumpNext::Parse { length: 2 }
    );
    assert_eq!(host.pump_step(PumpEvent::Parsed(hello), now), PumpNext::Greet);
    assert_eq!(host.pump_step(PumpEvent::Greeted, now), PumpNext::Done);
}

fn ask(host: &mut Host, now: u128) -> (Exchange, u64) {
    let mut exchange = host.snapshot(2000 * MS, now).unwrap();
    let id = match exchange.step(host, SnapshotEvent::Pumped { ended: false }, now) {
        SnapshotNext::Write { id } => id,
        other => panic!("unexpected {other:?}"),
    };
    assert!(matches!(
        exchange.step(host, SnapshotEvent::Written, now),
        SnapshotNext::Read
    ));
    (exchange, id)
}

#[test]
fn socket_reads_an_advertised_semantic_snapshot() {
    let mut host = Host::new();
    connect(&mut host, hello("fixture", &["semantic.snapshot"]), 0);
    assert!(host.is_ready());

    let (mut exchange, first) = ask(&mut host, 0);
    assert!(matches!(
        exchange.step(
            &mut host,
            SnapshotEvent::Read(ReadEvent::Bytes(b"{}\n".to_vec())),
            1
        ),
        SnapshotNext::Parse { length: 2 }
    ));
    match exchange.step(
        &mut host,
        SnapshotEvent::Parsed(SnapshotReply::Error {
            id: first,
            code: "NOT_READY".to_owned(),
            message: "try again".to_owned(),
        }),
        1,
    ) {
        SnapshotNext::Failed(message) => assert_eq!(
            message,
            "application semantic snapshot failed (NOT_READY): try again"
        ),
        other => panic!("unexpected {other:?}"),
    }
    assert!(host.is_ready());

    let (mut exchange, second) = ask(&mut host, 2);
    assert_ne!(first, second);
    match exchange.step(
        &mut host,
        SnapshotEvent::Parsed(SnapshotReply::Value {
            id: second,
            value: Value::Bool(true),
        }),
        3,
    ) {
        SnapshotNext::Value(value) => assert_eq!(value, Value::Bool(true)),
        other => panic!("unexpected {other:?}"),
    }
}

#[test]
fn socket_returns_none_without_the_semantic_capability() {
    let mut host = Host::new();
    connect(&mut host, hello("fixture", &[]), 0);
    let mut exchange = host.snapshot(1000 * MS, 0).unwrap();
    assert!(matches!(
        exchange.step(&mut host, SnapshotEvent::Pumped { ended: false }, 0),
        SnapshotNext::Nothing
    ));
}

#[test]
fn newer_provider_replaces_an_incomplete_handshake() {
    let mut host = Host::new();
    assert_eq!(host.pump_step(PumpEvent::Accepted, 0), PumpNext::Accept);
    assert_eq!(host.pump_step(PumpEvent::NoMore, 0), PumpNext::Read);
    assert_eq!(
        host.pump_step(PumpEvent::Read(ReadEvent::WouldBlock), 0),
        PumpNext::Done
    );
    assert!(!host.is_ready());
    connect(&mut host, hello("fixture", &["semantic.snapshot"]), 1);
    assert!(host.is_ready());
}

#[test]
fn provider_can_reconnect_after_a_clean_disconnect() {
    let mut host = Host::new();
    connect(&mut host, hello("first", &["semantic.snapshot"]), 0);
    assert!(host.is_ready());
    assert_eq!(host.pump(), PumpNext::Peek);
    assert_eq!(
        host.pump_step(PumpEvent::Peeked(Peek::Closed), 1),
        PumpNext::Accept
    );
    assert!(!host.is_ready());
    connect(&mut host, hello("second", &["semantic.snapshot"]), 2);
    assert!(host.is_ready());
}

#[test]
fn named_semantic_request_enforces_one_absolute_response_deadline() {
    let mut download = Download {
        bytes: Vec::new(),
        deadline: 50 * MS,
    };
    let mut failed = None;
    for (index, byte) in b"{\"ok\":true}".iter().enumerate() {
        let now = index as u128 * 20 * MS;
        match download.step(Some(ReadEvent::Bytes(vec![*byte])), now) {
            TransferNext::Again => {}
            TransferNext::Failed(message) => {
                failed = Some((now, message));
                break;
            }
            other => panic!("unexpected {other:?}"),
        }
    }
    let (now, message) = failed.unwrap();
    assert!(message.contains("timed out"));
    assert!(now < 200 * MS);
}

#[test]
fn semantic_snapshot_is_none_without_a_connected_provider() {
    let host = Host::new();
    assert!(host.snapshot(1000 * MS, 0).is_none());
}

#[test]
fn named_session_response_preserves_a_null_semantic_snapshot() {
    let response = Response {
        semantic_snapshot: Some(SemanticSnapshotResult { value: Value::Null }),
        ..Response::default()
    };
    assert_eq!(semantic_response(response).unwrap(), Value::Null);
    assert!(semantic_response(Response::default()).is_err());
}

#[test]
fn introductions_are_checked() {
    let refused = |hello: Hello| hello.check().unwrap_err().message();
    let mut other = hello("fixture", &[]);
    other.kind = "bye".to_owned();
    assert_eq!(
        refused(other),
        "first application semantic message must be a hello"
    );
    let mut newer = hello("fixture", &[]);
    newer.protocol_version = 2;
    assert_eq!(
        refused(newer),
        "unsupported application semantic protocol version 2"
    );
    assert_eq!(
        refused(hello("", &[])),
        "application semantic hello requires a nonempty application name"
    );
    assert_eq!(
        refused(hello("fixture", &["a", ""])),
        "application semantic capabilities must not be empty"
    );
    assert!(hello("fixture", &["a"]).check().is_ok());
    assert!(has_capability(&vec!["a".to_owned()], "a"));
    assert!(!has_capability(&vec!["a".to_owned()], "b"));
    let application = Application {
        name: "fixture".to_owned(),
        version: Some("1.0.0".to_owned()),
    };
    assert_eq!(application.identity(), "fixture 1.0.0");
}

#[test]
fn incomplete_handshakes_end() {
    let mut host = Host::new();
    host.pump_step(PumpEvent::Accepted, 0);
    assert_eq!(
        host.pump_step(PumpEvent::NoMore, 5_000_000_000),
        PumpNext::Done
    );
    assert_eq!(
        host.failure.as_deref(),
        Some("application semantic handshake timed out")
    );
    host.pump_step(PumpEvent::Accepted, 0);
    assert_eq!(
        host.pump_step(PumpEvent::Read(ReadEvent::Bytes(b"{}\nmore".to_vec())), 0),
        PumpNext::Done
    );
    assert_eq!(
        host.failure.as_deref(),
        Some("application sent semantic data before the handshake completed")
    );
    assert!(host.pending.is_none());
}

#[test]
fn answers_to_other_requests_end_the_connection() {
    let mut host = Host::new();
    connect(&mut host, hello("fixture", &["semantic.snapshot"]), 0);
    let (mut exchange, id) = ask(&mut host, 0);
    assert!(matches!(
        exchange.step(
            &mut host,
            SnapshotEvent::Parsed(SnapshotReply::Value {
                id: id + 1,
                value: Value::Null
            }),
            1
        ),
        SnapshotNext::Failed(_)
    ));
    assert!(!host.is_ready());
}

#[test]
fn a_request_that_cannot_be_written_ends_the_connection() {
    let mut host = Host::new();
    connect(&mut host, hello("fixture", &["semantic.snapshot"]), 0);
    let mut exchange = host.snapshot(2000 * MS, 0).unwrap();
    exchange.step(&mut host, SnapshotEvent::Pumped { ended: false }, 0);
    assert!(matches!(
        exchange.step(
            &mut host,
            SnapshotEvent::WriteFailed {
                message: "write application semantic request".to_owned(),
                cause: Some("broken pipe".to_owned()),
            },
            1
        ),
        SnapshotNext::Failed(message)
            if message == "write application semantic request: broken pipe"
    ));
    assert_eq!(
        host.failure.as_deref(),
        Some("write application semantic request")
    );
    assert!(!host.is_ready());

    connect(&mut host, hello("fixture", &["semantic.snapshot"]), 2);
    let mut exchange = host.snapshot(2000 * MS, 2).unwrap();
    exchange.step(&mut host, SnapshotEvent::Pumped { ended: false }, 2);
    let late = "timed out writing application semantic request";
    assert!(matches!(
        exchange.step(
            &mut host,
            SnapshotEvent::WriteFailed { message: late.to_owned(), cause: None },
            3
        ),
        SnapshotNext::Failed(message) if message == late
    ));
    assert_eq!(host.failure.as_deref(), Some(late));
}

#[test]
fn late_answers_are_refused() {
    let mut host = Host::new();
    connect(&mut host, hello("fixture", &["semantic.snapshot"]), 0);
    let (mut exchange, id) = ask(&mut host, 0);
    match exchange.step(
        &mut host,
        SnapshotEvent::Parsed(SnapshotReply::Value {
            id,
            value: Value::Null,
        }),
        2000 * MS,
    ) {
        SnapshotNext::Failed(message) => {
            assert_eq!(message, "application semantic snapshot 1 timed out")
        }
        other => panic!("unexpected {other:?}"),
    }
    assert!(!host.is_ready());
}

#[test]
fn deadlines_are_absolute() {
    assert_eq!(deadline_unix_ms(1500 * MS, 100), Ok(1600));
    assert_eq!(deadline_unix_ms(1500 * MS, u64::MAX), Ok(u64::MAX));
    assert_eq!(
        deadline_unix_ms(0, 100).unwrap_err().message(),
        "semantic timeout must be greater than zero"
    );
    assert_eq!(remaining(1600, 1000), Ok(600));
    assert_eq!(
        remaining(1600, 1600).unwrap_err().message(),
        "application semantic timed out before it was handled"
    );
    assert_eq!(
        check_timeout(0).unwrap_err().message(),
        "semantic snapshot timeout must be greater than zero"
    );
    assert_eq!(response_in_time(5, 10, 9), Ok(5));
    assert_eq!(
        response_in_time(5, 10, 10),
        Err("timed out parsing session semantic response".to_owned())
    );
}

#[test]
fn writing_goes_on_until_everything_is_written_or_time_is_up() {
    let mut upload = Upload {
        peer: Peer::Session,
        length: 5,
        written: 0,
        deadline: 10 * MS,
    };
    assert!(matches!(upload.step(WriteEvent::Begin, 0), TransferNext::Again));
    assert!(matches!(upload.step(WriteEvent::Wrote(3), 0), TransferNext::Again));
    assert!(matches!(
        upload.step(WriteEvent::WouldBlock, 7 * MS),
        TransferNext::Rest(duration) if duration == 3 * MS
    ));
    assert!(matches!(
        upload.step(WriteEvent::Rested, 10 * MS),
        TransferNext::Failed(message) if message == "timed out writing session semantic request"
    ));
    assert!(matches!(upload.step(WriteEvent::Wrote(2), 11 * MS), TransferNext::Done));
    assert!(matches!(
        upload.step(WriteEvent::Wrote(0), 0),
        TransferNext::Failed(message) if message == "session closed while writing semantic request"
    ));
    upload.peer = Peer::Application;
    assert!(matches!(
        upload.step(WriteEvent::Failed("broken pipe".to_owned()), 0),
        TransferNext::Broken { doing, error }
            if doing == "write application semantic request" && error == "broken pipe"
    ));
}

#[test]
fn a_provider_looks_for_a_name_of_its_own() {
    assert_eq!(socket_file(4711, 0), "semantic-4711-0.semantic");
    assert_eq!(socket_file(1, u64::MAX), "semantic-1-18446744073709551615.semantic");
    let mut search = SocketSearch::begin();
    let mut tried = 0;
    while search.go_on() {
        tried += 1;
    }
    assert_eq!(tried, SOCKET_TRIES);
    assert!(!search.go_on());
}
