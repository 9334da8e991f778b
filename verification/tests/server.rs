use http_server::connection::ConnectionStatus;
use http_server::error_utils::MaybeFatal;
use http_server::handler::ConstantHandler;
use http_server::header::Header;
use http_server::oscode::{EAGAIN, EBADF, EPIPE};
use http_server::protocol::Protocol;
use http_server::request::Request;
use http_server::response::{Response, ResponseCode};
use http_server::router::BaseRouter;
use http_server::server::{HTTPServer, HTTPServerRunError};
use http_server::socket::{Socket, SocketAcceptError, SocketListeningError};

fn hello_response() -> Response {
    let mut response = Response::new(ResponseCode::OK, Protocol::Http1_1);
    response.insert_header(Header::ContentType, b"text/plain".to_vec());
    response.set_content(Some(b"hello".to_vec()));
    response
}

fn server() -> HTTPServer<ConstantHandler> {
    let mut router = BaseRouter::new();
    router.register_handler_from_path(ConstantHandler::new(hello_response()), "/hello");
    let socket = Socket::new(5000, [127, 0, 0, 1], Ok(3), Ok(0)).unwrap();
    HTTPServer::new(socket, router)
}

fn listening() -> HTTPServer<ConstantHandler> {
    let mut server = server();
    assert!(server.start(Ok(0)).is_none());
    server
}

#[test]
fn start_makes_the_socket_listen() {
    let mut server = server();
    assert!(server.connections.is_empty());
    assert!(server.start(Ok(0)).is_none());
    assert!(server.socket.is_listening());
    assert!(server.start(Err(EBADF)).is_none());
    assert!(server.socket.is_listening());
}

#[test]
fn failed_listen_stops_the_run() {
    let mut server = server();
    let stop = server.start(Err(EBADF)).unwrap();
    assert_eq!(
        stop,
        HTTPServerRunError::SocketListeningError(SocketListeningError::ListeningFailed(9))
    );
    assert!(stop.is_fatal());
    assert!(!HTTPServerRunError::SocketListeningError(SocketListeningError::AlreadyListening)
        .is_fatal());
}

#[test]
fn accepted_descriptor_becomes_a_reading_connection() {
    let mut server = listening();
    assert!(server.accept_connections(Ok(7)).is_ok());
    assert!(server.accept_step(Ok(8)).is_none());
    assert_eq!(server.connections.len(), 2);
    assert_eq!(server.connections[0].get_file_descriptor(), 7);
    assert_eq!(server.connections[1].get_file_descriptor(), 8);
    assert!(server.connections[1].is_reading());
}

#[test]
fn nothing_pending_is_swallowed() {
    let mut server = listening();
    let result = server.accept_connections(Err(EAGAIN));
    assert_eq!(
        result,
        Err(HTTPServerRunError::SocketAcceptError(SocketAcceptError::AcceptFailed(11)))
    );
    assert!(!result.unwrap_err().is_fatal());
    assert!(server.accept_step(Err(EAGAIN)).is_none());
    assert!(server.connections.is_empty());
    assert!(server.socket.is_listening());
}

#[test]
fn fatal_accept_stops_the_run() {
    let mut server = listening();
    let stop = server.accept_step(Err(EBADF)).unwrap();
    assert_eq!(stop, HTTPServerRunError::SocketAcceptError(SocketAcceptError::AcceptFailed(9)));
    assert!(stop.is_fatal());
    assert!(!server.socket.is_listening());
    assert!(server.accept_step(Ok(4)).is_none());
    assert!(server.connections.is_empty());
}

#[test]
fn wait_set_sorts_connections_by_direction() {
    let mut server = listening();
    for descriptor in [10, 4, 12, 6] {
        assert!(server.accept_step(Ok(descriptor)).is_none());
    }
    assert!(!server.advance_read(1, Ok(b"GET /hello HTTP/1.1\r\n\r\n")));
    assert!(!server.advance_read(2, Err(EBADF)));
    assert!(server.advance_read(3, Ok(b"GET /he")));
    let set = server.wait_set();
    assert_eq!(set.read, vec![10, 6, 3]);
    assert_eq!(set.write, vec![4]);
    assert_eq!(set.highest, 12);
    let empty = listening().wait_set();
    assert_eq!(empty.read, vec![3]);
    assert!(empty.write.is_empty());
    assert_eq!(empty.highest, 3);
}

#[test]
fn request_is_answered_by_its_handler() {
    let mut server = listening();
    server.accept_step(Ok(7));
    assert!(!server.advance_read(0, Ok(b"GET /hello HTTP/1.1\r\nHost: x\r\n\r\n")));
    let connection = &server.connections[0];
    assert_eq!(connection.get_status(), ConnectionStatus::Writing);
    assert_eq!(connection.get_write_cursor(), 0);
    assert_eq!(connection.pending(), hello_response().serialize());
    assert_eq!(
        connection.pending(),
        b"HTTP/1.1 200 OK\nContent-Type: text/plain\n\r\n\r\nhello".to_vec()
    );
    let status = Response::parse_status_line(&connection.pending());
    assert_eq!(status, Some((Protocol::Http1_1, ResponseCode::OK)));
}

#[test]
fn unmatched_request_is_answered_not_found() {
    let socket = Socket::new(5000, [127, 0, 0, 1], Ok(3), Ok(0)).unwrap();
    let mut server: HTTPServer<ConstantHandler> = HTTPServer::new(socket, BaseRouter::new());
    server.start(Ok(0));
    server.accept_step(Ok(7));
    assert!(!server.advance_read(0, Ok(b"GET /missing HTTP/1.1\r\n\r\n")));
    assert_eq!(server.connections[0].pending(), b"HTTP/1.1 404 Not Found\n\r\n\r\n".to_vec());
    server.accept_step(Ok(8));
    assert!(!server.advance_read(1, Ok(b"GET /missing HTTP/1.0\r\n\r\n")));
    assert_eq!(server.connections[1].pending(), b"HTTP/1.0 404 Not Found\n\r\n\r\n".to_vec());
}

#[test]
fn malformed_request_is_answered_bad_request() {
    let mut server = listening();
    server.accept_step(Ok(7));
    assert!(server.advance_read(0, Ok(b"HELLO")));
    assert!(!server.advance_read(0, Ok(b"")));
    assert!(server.connections[0].is_writing());
    assert_eq!(server.connections[0].pending(), b"HTTP/1.1 400 Bad Request\n\r\n\r\n".to_vec());
}

#[test]
fn respond_outside_its_state_changes_nothing() {
    let mut server = listening();
    server.accept_step(Ok(7));
    let mut request = Request::parse(b"GET /hello HTTP/1.1\r\n\r\n").unwrap();
    server.respond(0, &mut request);
    assert!(server.connections[0].is_reading());
    assert!(server.connections[0].get_accumulated().is_empty());
    server.reject(0);
    assert!(server.connections[0].is_reading());
}

#[test]
fn write_until_flushed_then_reap() {
    let mut server = listening();
    server.accept_step(Ok(7));
    server.accept_step(Ok(8));
    server.accept_step(Ok(9));
    assert!(!server.advance_read(0, Ok(b"GET /hello HTTP/1.1\r\n\r\n")));
    assert!(!server.advance_read(2, Ok(b"GET /hello HTTP/1.1\r\n\r\n")));
    let total = server.connections[0].pending().len();
    assert!(server.advance_write(0, Ok(10)));
    assert!(!server.advance_write(0, Err(EAGAIN)));
    assert_eq!(server.connections[0].get_write_cursor(), 10);
    assert!(!server.advance_write(0, Ok(total - 10)));
    assert!(!server.connections[0].is_alive());
    assert!(!server.advance_write(1, Ok(1)));
    assert!(server.connections[1].is_reading());
    assert!(!server.advance_write(2, Err(EPIPE)));
    assert!(!server.connections[2].is_alive());
    let closed = server.reap();
    assert_eq!(closed, vec![7, 9]);
    assert_eq!(server.connections.len(), 1);
    assert_eq!(server.connections[0].get_file_descriptor(), 8);
    assert!(server.reap().is_empty());
    assert_eq!(server.connections.len(), 1);
}
