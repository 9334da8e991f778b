use http_server::connection::{
    Connection, ConnectionReadError, ConnectionResponseError, ConnectionStatus,
    ConnectionWriteError, BUFFER_SIZE,
};
use http_server::error_utils::MaybeFatal;
use http_server::oscode::{
    EAGAIN, EBADF, EDESTADDRREQ, EDQUOT, EFAULT, EFBIG, EINVAL, EIO, EISDIR, ENOSPC, ENOTSOCK,
    EPERM, EPIPE,
};
use http_server::header::Header;
use http_server::protocol::Protocol;
use http_server::request::{Method, RequestParseError};

const EINTR: i32 = 4;

fn awaiting(descriptor: usize) -> Connection {
    let mut connection = Connection::new(descriptor);
    let step = connection.read(Ok(b"GET / HTTP/1.1\r\n\r\n"));
    assert!(matches!(step, Some(Ok(_))));
    connection
}

fn writing(descriptor: usize, data: &str) -> Connection {
    let mut connection = awaiting(descriptor);
    assert!(connection.begin_response(data).is_ok());
    connection
}

#[test]
fn new_connection_reads() {
    let connection = Connection::new(7);
    assert_eq!(connection.get_file_descriptor(), 7);
    assert_eq!(connection.get_status(), ConnectionStatus::Reading);
    assert!(connection.is_alive());
    assert!(connection.is_reading());
    assert!(!connection.is_writing());
    assert!(!connection.is_awaiting_response());
    assert!(connection.get_accumulated().is_empty());
    assert_eq!(connection.get_write_cursor(), 0);
    assert_eq!(BUFFER_SIZE, 256);
}

#[test]
fn read_whole_request_at_once() {
    let mut connection = Connection::new(3);
    let step = connection.read(Ok(b"GET /hello HTTP/1.1\r\nHost: x\r\n\r\n"));
    let request = step.unwrap().unwrap();
    assert_eq!(request.method, Method::Get);
    assert_eq!(request.target, b"/hello".to_vec());
    assert_eq!(request.protocol, Protocol::Http1_1);
    assert_eq!(request.get_header(&Header::Host), Some(&b"x".to_vec()));
    assert!(request.path_parameters.is_empty());
    assert_eq!(connection.get_status(), ConnectionStatus::AwaitingResponse);
}

#[test]
fn read_in_pieces_until_terminator() {
    let mut connection = Connection::new(3);
    assert!(connection.read(Ok(b"GET /he")).is_none());
    assert_eq!(connection.get_status(), ConnectionStatus::Reading);
    assert!(connection.read(Ok(b"llo HTTP/1.0\r\n\r")).is_none());
    assert_eq!(connection.get_accumulated(), &b"GET /hello HTTP/1.0\r\n\r".to_vec());
    let request = connection.read(Ok(b"\n")).unwrap().unwrap();
    assert_eq!(request.target, b"/hello".to_vec());
    assert_eq!(request.protocol, Protocol::Http1_0);
    assert!(connection.is_awaiting_response());
}

#[test]
fn peer_close_parses_what_was_accumulated() {
    let mut connection = Connection::new(3);
    assert!(connection.read(Ok(b"GET /partial")).is_none());
    let request = connection.read(Ok(b"")).unwrap().unwrap();
    assert_eq!(request.method, Method::Get);
    assert_eq!(request.target, b"/partial".to_vec());
    assert_eq!(request.protocol, Protocol::Missing);
    assert!(connection.is_awaiting_response());
}

#[test]
fn peer_close_with_nothing_accumulated_is_malformed() {
    let mut connection = Connection::new(3);
    let reply = connection.read(Ok(b"")).unwrap();
    assert!(matches!(
        reply,
        Err(ConnectionReadError::MalformedRequest(RequestParseError::RequestLineMissing))
    ));
    assert!(connection.is_awaiting_response());
}

#[test]
fn would_block_ends_the_reading() {
    let mut connection = Connection::new(3);
    assert!(connection.read(Ok(b"GET /a HTTP/1.1\r\n")).is_none());
    let request = connection.read(Err(EAGAIN)).unwrap().unwrap();
    assert_eq!(request.target, b"/a".to_vec());
    assert!(connection.is_awaiting_response());
}

#[test]
fn fatal_read_error_kills() {
    for code in [EBADF, EFAULT, EINVAL, EIO, EISDIR] {
        let mut connection = Connection::new(3);
        let reply = connection.read(Err(code)).unwrap();
        match reply {
            Err(ConnectionReadError::ReadError(c)) => assert_eq!(c, code),
            _ => panic!("expected a read error"),
        }
        assert!(!connection.is_alive());
        assert_eq!(connection.get_status(), ConnectionStatus::Dead);
    }
}

#[test]
fn other_read_error_leaves_the_connection_reading() {
    let mut connection = Connection::new(3);
    assert!(connection.read(Ok(b"GET")).is_none());
    let reply = connection.read(Err(EINTR)).unwrap();
    match reply {
        Err(error) => {
            assert!(matches!(error, ConnectionReadError::ReadError(4)));
            assert!(!error.is_fatal());
        },
        Ok(_) => panic!("expected an error"),
    }
    assert!(connection.is_reading());
    assert_eq!(connection.get_accumulated(), &b"GET".to_vec());
}

#[test]
fn read_while_not_reading_is_refused() {
    let mut connection = awaiting(3);
    let reply = connection.read(Ok(b"more")).unwrap();
    match reply {
        Err(error) => {
            assert!(matches!(
                error,
                ConnectionReadError::NotReadyToRead(ConnectionStatus::AwaitingResponse)
            ));
            assert!(error.is_fatal());
        },
        Ok(_) => panic!("expected an error"),
    }
    assert_eq!(connection.get_accumulated(), &b"GET / HTTP/1.1\r\n\r\n".to_vec());
    assert!(connection.is_awaiting_response());
}

#[test]
fn malformed_request_keeps_the_connection() {
    let mut connection = Connection::new(3);
    let reply = connection.read(Ok(b"BREW /pot HTTP/1.1\r\n\r\n")).unwrap();
    match reply {
        Err(error) => {
            assert!(!error.is_fatal());
            match error {
                ConnectionReadError::MalformedRequest(RequestParseError::UnknownMethod(token)) => {
                    assert_eq!(token, b"BREW".to_vec())
                },
                _ => panic!("expected an unknown method"),
            }
        },
        Ok(_) => panic!("expected an error"),
    }
    assert!(connection.is_awaiting_response());
    assert!(connection.begin_response("HTTP/1.1 400 Bad Request\r\n\r\n").is_ok());
    assert!(connection.is_writing());
}

#[test]
fn read_error_classification() {
    for code in [EBADF, EFAULT, EINVAL, EIO, EISDIR] {
        assert!(ConnectionReadError::ReadError(code).is_fatal());
    }
    for code in [EAGAIN, EINTR, EPIPE, EPERM, ENOTSOCK, 0, -1] {
        assert!(!ConnectionReadError::ReadError(code).is_fatal());
    }
    assert!(ConnectionReadError::NotReadyToRead(ConnectionStatus::Dead).is_fatal());
    assert!(!ConnectionReadError::MalformedRequest(RequestParseError::TargetMissing).is_fatal());
}

#[test]
fn write_error_classification() {
    for code in [EBADF, EDESTADDRREQ, EDQUOT, EFAULT, EFBIG, EINVAL, EIO, ENOSPC, EPERM, EPIPE] {
        assert!(ConnectionWriteError::WriteError(code).is_fatal());
    }
    for code in [EAGAIN, EINTR, EISDIR, ENOTSOCK, 0] {
        assert!(!ConnectionWriteError::WriteError(code).is_fatal());
    }
    assert!(ConnectionWriteError::NotReadyToWrite(ConnectionStatus::Reading).is_fatal());
    assert!(!ConnectionWriteError::NotReadyToWrite(ConnectionStatus::AwaitingResponse).is_fatal());
    assert!(!ConnectionWriteError::NotReadyToWrite(ConnectionStatus::Dead).is_fatal());
}

#[test]
fn begin_response_outside_its_state_changes_nothing() {
    let mut connection = Connection::new(3);
    assert!(connection.read(Ok(b"GET")).is_none());
    let result = connection.begin_response("HTTP/1.1 200 OK\r\n\r\n");
    assert!(matches!(
        result,
        Err(ConnectionResponseError::NotReadyToRespond(ConnectionStatus::Reading))
    ));
    assert!(connection.is_reading());
    assert_eq!(connection.get_accumulated(), &b"GET".to_vec());
    assert_eq!(connection.get_write_cursor(), 0);
}

#[test]
fn begin_response_queues_the_bytes() {
    let connection = writing(3, "HTTP/1.1 204 No Content\r\n\r\n");
    assert!(connection.is_writing());
    assert_eq!(connection.get_write_cursor(), 0);
    assert_eq!(connection.get_accumulated(), &b"HTTP/1.1 204 No Content\r\n\r\n".to_vec());
    assert_eq!(connection.pending(), b"HTTP/1.1 204 No Content\r\n\r\n".to_vec());
}

#[test]
fn write_advances_and_never_regresses() {
    let mut connection = writing(3, "0123456789");
    assert!(connection.write(Ok(3)).is_none());
    assert_eq!(connection.get_write_cursor(), 3);
    assert_eq!(connection.pending(), b"3456789".to_vec());
    let blocked = connection.write(Err(EAGAIN)).unwrap();
    assert!(matches!(blocked, Err(ConnectionWriteError::WriteError(11))));
    assert_eq!(connection.get_write_cursor(), 3);
    assert!(connection.is_writing());
    let again = connection.write(Err(EAGAIN)).unwrap();
    assert!(again.is_err());
    assert_eq!(connection.get_write_cursor(), 3);
    assert!(connection.write(Ok(6)).is_none());
    assert_eq!(connection.get_write_cursor(), 9);
    let done = connection.write(Ok(1)).unwrap();
    assert!(done.is_ok());
    assert_eq!(connection.get_write_cursor(), 10);
    assert_eq!(connection.get_status(), ConnectionStatus::Dead);
}

#[test]
fn write_of_nothing_settles_without_killing() {
    let mut connection = writing(3, "abc");
    let step = connection.write(Ok(0)).unwrap();
    assert!(step.is_ok());
    assert!(connection.is_writing());
    assert_eq!(connection.get_write_cursor(), 0);
}

#[test]
fn empty_response_is_flushed_at_once() {
    let mut connection = writing(3, "");
    let step = connection.write(Ok(0)).unwrap();
    assert!(step.is_ok());
    assert!(!connection.is_alive());
}

#[test]
fn fatal_write_error_kills() {
    let mut connection = writing(3, "abc");
    let step = connection.write(Err(EPIPE)).unwrap();
    match step {
        Err(error) => assert!(error.is_fatal()),
        Ok(_) => panic!("expected an error"),
    }
    assert!(!connection.is_alive());
}

#[test]
fn write_outside_its_state_is_refused() {
    let mut reading = Connection::new(3);
    let step = reading.write(Ok(1)).unwrap();
    assert!(matches!(
        step,
        Err(ConnectionWriteError::NotReadyToWrite(ConnectionStatus::Reading))
    ));
    assert!(reading.is_reading());
    let mut waiting = awaiting(4);
    let step = waiting.write(Ok(1)).unwrap();
    match step {
        Err(error) => {
            assert!(matches!(
                error,
                ConnectionWriteError::NotReadyToWrite(ConnectionStatus::AwaitingResponse)
            ));
            assert!(!error.is_fatal());
        },
        Ok(_) => panic!("expected an error"),
    }
    assert!(waiting.is_awaiting_response());
}

#[test]
fn kill_from_every_state() {
    let mut a = Connection::new(1);
    a.kill();
    assert_eq!(a.get_status(), ConnectionStatus::Dead);
    let mut b = awaiting(2);
    b.kill();
    assert_eq!(b.get_status(), ConnectionStatus::Dead);
    let mut c = writing(3, "x");
    c.kill();
    assert_eq!(c.get_status(), ConnectionStatus::Dead);
    c.kill();
    assert_eq!(c.get_status(), ConnectionStatus::Dead);
    assert!(c.read(Ok(b"x")).unwrap().is_err());
    assert!(c.write(Ok(0)).unwrap().is_err());
    assert!(c.begin_response("x").is_err());
    assert_eq!(c.get_status(), ConnectionStatus::Dead);
}

#[test]
fn reset_twice_is_reset_once() {
    let mut connection = Connection::new(3);
    assert!(connection.read(Ok(b"GET /x")).is_none());
    connection.reset();
    assert!(connection.get_accumulated().is_empty());
    assert!(connection.is_reading());
    assert_eq!(connection.get_write_cursor(), 0);
    connection.reset();
    assert!(connection.get_accumulated().is_empty());
    assert!(connection.is_reading());
    assert_eq!(connection.get_write_cursor(), 0);
    let mut busy = writing(4, "abcdef");
    assert!(busy.write(Ok(2)).is_none());
    busy.reset();
    assert!(busy.is_writing());
    assert_eq!(busy.get_write_cursor(), 0);
    assert!(busy.pending().is_empty());
}

#[test]
fn parse_request_reads_the_accumulator() {
    let mut connection = Connection::new(3);
    assert!(connection.read(Ok(b"POST /form HTTP/0.9")).is_none());
    let request = connection.parse_request().unwrap();
    assert_eq!(request.method, Method::Post);
    assert_eq!(request.protocol, Protocol::Http0_9);
    assert!(connection.is_reading());
}
