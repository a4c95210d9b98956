use terminal_control::runtime::{
    check_address, connect_step, directory, ensure_socket_path, prepare_directory,
    require_private_directory, AddressError, ConnectEvent, ConnectNext, DirectoryEvent,
    DirectoryFacts, DirectoryNext, SocketFacts,
};

const OWN: DirectoryFacts = DirectoryFacts {
    is_dir: true,
    is_symlink: false,
    uid: 7,
};

fn failure(next: DirectoryNext) -> String {
    match next {
        DirectoryNext::Failed(error) => error.message(),
        other => panic!("unexpected {other:?}"),
    }
}

#[test]
fn runtime_directories_belong_to_the_user() {
    assert_eq!(directory(None, 7), b"/tmp/termctrl-7");
    assert_eq!(directory(Some(b"/run/mine".to_vec()), 7), b"/run/mine");
    assert_eq!(directory(Some(b"/run/\xff".to_vec()), 7), b"/run/\xff");
    assert!(require_private_directory("/x", OWN, 7).is_ok());
    let link = DirectoryFacts { is_symlink: true, ..OWN };
    assert_eq!(
        require_private_directory("/x", link, 7).unwrap_err().message(),
        "session runtime path must be a real directory: /x"
    );
    assert_eq!(
        require_private_directory("/x", OWN, 8).unwrap_err().message(),
        "session runtime directory is not owned by the current user: /x"
    );
}

#[test]
fn runtime_directories_are_made_when_missing() {
    let step = |raced, event| prepare_directory("/x", 7, raced, event);
    assert!(matches!(
        step(false, DirectoryEvent::Missing("gone".to_owned())),
        DirectoryNext::Create
    ));
    assert_eq!(
        failure(step(true, DirectoryEvent::Missing("gone".to_owned()))),
        "inspect /x: gone"
    );
    assert!(matches!(step(false, DirectoryEvent::AlreadyExists), DirectoryNext::Inspect));
    assert!(matches!(step(false, DirectoryEvent::Created), DirectoryNext::Secure));
    assert!(matches!(step(true, DirectoryEvent::Found(OWN)), DirectoryNext::Secure));
    assert!(matches!(step(false, DirectoryEvent::Secured), DirectoryNext::Done));
    assert_eq!(
        failure(step(false, DirectoryEvent::CreateFailed("no".to_owned()))),
        "create /x: no"
    );
    assert_eq!(
        failure(step(false, DirectoryEvent::SecureFailed("no".to_owned()))),
        "secure /x: no"
    );
}

#[test]
fn socket_paths_are_short() {
    assert!(ensure_socket_path(99, "/x", "session socket").is_ok());
    assert_eq!(
        ensure_socket_path(100, "/x", "session socket").unwrap_err().message(),
        "session socket path is too long for portable Unix sockets: /x; set TERMCTRL_RUNTIME_DIR to a shorter directory"
    );
    assert_eq!(check_address(b"/a", 3), Ok(()));
    assert_eq!(check_address(b"/ab", 3), Err(AddressError::TooLong));
    assert_eq!(check_address(b"/\0bcd", 3), Err(AddressError::NullByte));
    let facts = SocketFacts { is_socket: true, uid: 7, mode: 0o700 };
    assert!(facts.is_trusted(7));
    assert!(!facts.is_trusted(8));
    assert!(!SocketFacts { mode: 0o701, ..facts }.is_trusted(7));
    assert!(!SocketFacts { is_socket: false, ..facts }.is_trusted(7));
}

#[test]
fn connections_are_awaited_in_whole_milliseconds() {
    assert_eq!(connect_step(10, ConnectEvent::Begin, 0), ConnectNext::Poll(1));
    assert_eq!(
        connect_step(2_500_000, ConnectEvent::Begin, 0),
        ConnectNext::Poll(2)
    );
    assert_eq!(
        connect_step(u128::MAX, ConnectEvent::Begin, 0),
        ConnectNext::Poll(i32::MAX)
    );
    assert_eq!(connect_step(10, ConnectEvent::Begin, 10), ConnectNext::TimedOut);
    assert_eq!(connect_step(10, ConnectEvent::Nothing, 0), ConnectNext::TimedOut);
    assert_eq!(connect_step(10, ConnectEvent::Ready, 99), ConnectNext::Inspect);
}
