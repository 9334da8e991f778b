use http_server::error_utils::MaybeFatal;
use http_server::oscode::{
    raw_outcome, EAGAIN, EBADF, EFAULT, EINVAL, ENOTSOCK, EOPNOTSUPP, EPERM,
};
use syscalls::Errno;
use http_server::socket::{
    Socket, SocketAcceptError, SocketCreateError, SocketListeningError, LISTEN_BACKLOG,
};

fn bound() -> Socket {
    Socket::new(5000, [127, 0, 0, 1], Ok(3), Ok(0)).unwrap()
}

#[test]
fn new_socket_does_not_listen() {
    let socket = bound();
    assert_eq!(socket.get_file_descriptor(), 3);
    assert_eq!(socket.get_port(), 5000);
    assert_eq!(socket.get_address(), [127, 0, 0, 1]);
    assert!(!socket.is_listening());
    assert_eq!(LISTEN_BACKLOG, 64);
}

#[test]
fn creation_failures() {
    let no_descriptor = Socket::new(80, [0, 0, 0, 0], Err(EPERM), Ok(0));
    assert!(matches!(no_descriptor, Err(SocketCreateError::DescriptorCreationFailed(1))));
    let both = Socket::new(80, [0, 0, 0, 0], Err(EPERM), Err(EINVAL));
    assert!(matches!(both, Err(SocketCreateError::DescriptorCreationFailed(1))));
    let unbound = Socket::new(80, [0, 0, 0, 0], Ok(4), Err(98));
    match unbound {
        Err(error) => {
            assert_eq!(error, SocketCreateError::BindingFailed(98));
            assert!(error.is_fatal());
        },
        Ok(_) => panic!("expected an error"),
    }
}

#[test]
fn listening_starts_once() {
    let mut socket = bound();
    assert_eq!(socket.start_listening(Ok(0)), Ok(()));
    assert!(socket.is_listening());
    let again = socket.start_listening(Ok(0));
    assert_eq!(again, Err(SocketListeningError::AlreadyListening));
    assert!(!again.unwrap_err().is_fatal());
    assert_eq!(socket.start_listening(Err(EBADF)), Err(SocketListeningError::AlreadyListening));
    assert!(socket.is_listening());
}

#[test]
fn failed_listen_is_fatal() {
    let mut socket = bound();
    let result = socket.start_listening(Err(EBADF));
    assert_eq!(result, Err(SocketListeningError::ListeningFailed(9)));
    assert!(result.unwrap_err().is_fatal());
    assert!(!socket.is_listening());
}

#[test]
fn accept_needs_listening() {
    let mut socket = bound();
    let result = socket.accept_connection(Ok(9));
    assert_eq!(result, Err(SocketAcceptError::NotListening));
    assert!(!result.unwrap_err().is_fatal());
}

#[test]
fn accept_yields_the_descriptor() {
    let mut socket = bound();
    socket.start_listening(Ok(0)).unwrap();
    assert_eq!(socket.accept_connection(Ok(9)), Ok(9));
    assert!(socket.is_listening());
}

#[test]
fn nothing_pending_is_not_fatal() {
    let mut socket = bound();
    socket.start_listening(Ok(0)).unwrap();
    let result = socket.accept_connection(Err(EAGAIN));
    assert_eq!(result, Err(SocketAcceptError::AcceptFailed(11)));
    assert!(!result.unwrap_err().is_fatal());
    assert!(socket.is_listening());
}

#[test]
fn fatal_accept_ends_the_listening() {
    for code in [EBADF, EFAULT, EINVAL, ENOTSOCK, EOPNOTSUPP] {
        let mut socket = bound();
        socket.start_listening(Ok(0)).unwrap();
        let result = socket.accept_connection(Err(code));
        assert_eq!(result, Err(SocketAcceptError::AcceptFailed(code)));
        assert!(result.unwrap_err().is_fatal());
        assert!(!socket.is_listening());
        assert_eq!(socket.accept_connection(Ok(5)), Err(SocketAcceptError::NotListening));
    }
}

#[test]
fn system_call_outcome_as_plain_values() {
    assert_eq!(raw_outcome(Ok(17)), Ok(17));
    assert_eq!(raw_outcome(Ok(0)), Ok(0));
    assert_eq!(raw_outcome(Err(Errno::new(9))), Err(EBADF));
    assert_eq!(raw_outcome(Err(Errno::EAGAIN)), Err(EAGAIN));
    assert_eq!(raw_outcome(Err(Errno::EWOULDBLOCK)), Err(11));
    assert_eq!(raw_outcome(Err(Errno::EPIPE)), Err(32));
    assert_eq!(raw_outcome(Err(Errno::EDQUOT)), Err(122));
    assert_eq!(raw_outcome(Err(Errno::EOPNOTSUPP)), Err(EOPNOTSUPP));
    assert_eq!(raw_outcome(Err(Errno::ENOTSOCK)), Err(ENOTSOCK));
}
