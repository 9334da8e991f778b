use http_server::header::Header;
use http_server::protocol::Protocol;
use http_server::response::{Response, ResponseCode};

#[test]
fn phrases_and_numbers() {
    let table = [
        (ResponseCode::Continue, 100, "Continue"),
        (ResponseCode::SwitchingProtocols, 101, "Switching Protocols"),
        (ResponseCode::OK, 200, "OK"),
        (ResponseCode::Created, 201, "Created"),
        (ResponseCode::NonAuthoritativeInformation, 203, "Non-Authoritative Information"),
        (ResponseCode::NoContent, 204, "No Content"),
        (ResponseCode::TemporaryRedirect, 307, "Temporary Redirect"),
        (ResponseCode::BadRequest, 400, "Bad Request"),
        (ResponseCode::NotFound, 404, "Not Found"),
        (ResponseCode::URITooLarge, 414, "URI Too Long"),
        (ResponseCode::UpgradeRequired, 426, "Upgrade Required"),
        (ResponseCode::InternalServerError, 500, "Internal Server Error"),
        (ResponseCode::HTTPVersionNotSupported, 505, "HTTP Version Not Supported"),
    ];
    for (code, number, phrase) in table {
        assert_eq!(code.as_number(), number);
        assert_eq!(code.as_phrase(), phrase);
        assert_eq!(ResponseCode::from_number(number), Some(code));
    }
    assert_eq!(ResponseCode::from_number(306), None);
    assert_eq!(ResponseCode::from_number(0), None);
    assert_eq!(ResponseCode::from_number(600), None);
}

#[test]
fn new_response_is_bare() {
    let response = Response::new(ResponseCode::NotFound, Protocol::Http1_0);
    assert_eq!(response.get_code(), ResponseCode::NotFound);
    assert_eq!(response.get_protocol(), Protocol::Http1_0);
    assert!(response.header_fields.is_empty());
    assert!(response.content.is_none());
}

#[test]
fn bare_response_on_the_wire() {
    let response = Response::new(ResponseCode::NotFound, Protocol::Http1_1);
    assert_eq!(response.serialize(), b"HTTP/1.1 404 Not Found\n\r\n\r\n".to_vec());
}

#[test]
fn full_response_on_the_wire() {
    let mut response = Response::new(ResponseCode::OK, Protocol::Http1_0);
    assert!(response.insert_header(Header::ContentType, b"text/plain".to_vec()).is_none());
    assert!(response
        .insert_header(Header::Other("X-Served-By".to_string()), b"reactor".to_vec())
        .is_none());
    response.set_content(Some(b"foo: X\nbiz: Y\n".to_vec()));
    assert_eq!(
        response.serialize(),
        b"HTTP/1.0 200 OK\nContent-Type: text/plain\nX-Served-By: reactor\n\r\n\r\nfoo: X\nbiz: Y\n"
            .to_vec()
    );
}

#[test]
fn inserting_a_header_again_replaces_its_value() {
    let mut response = Response::new(ResponseCode::OK, Protocol::Http1_1);
    assert!(response.insert_header(Header::Host, b"a".to_vec()).is_none());
    assert!(response.insert_header(Header::ContentLength, b"1".to_vec()).is_none());
    assert_eq!(response.insert_header(Header::Host, b"b".to_vec()), Some(b"a".to_vec()));
    assert_eq!(response.header_fields.len(), 2);
    assert_eq!(response.serialize(), b"HTTP/1.1 200 OK\nHost: b\nContent-Length: 1\n\r\n\r\n".to_vec());
}

#[test]
fn status_line_reads_back() {
    let codes = [ResponseCode::Continue, ResponseCode::OK, ResponseCode::NotFound, ResponseCode::HTTPVersionNotSupported];
    let protocols = [Protocol::Http1_1, Protocol::Http1_0, Protocol::Http0_9];
    for code in codes {
        for protocol in protocols {
            let bytes = Response::new(code, protocol).serialize();
            assert_eq!(Response::parse_status_line(&bytes), Some((protocol, code)));
        }
    }
}

#[test]
fn status_line_that_is_none() {
    assert_eq!(Response::parse_status_line(b""), None);
    assert_eq!(Response::parse_status_line(b"HTTP/1.1"), None);
    assert_eq!(Response::parse_status_line(b"HTTP/1.1 999 Nope\n"), None);
    assert_eq!(Response::parse_status_line(b"HTTP/3 200 OK\n"), None);
    assert_eq!(Response::parse_status_line(b"HTTP/1.1 20 OK\n"), None);
    assert_eq!(Response::parse_status_line(b"HTTP/1.1 2000 OK\n"), None);
    assert_eq!(Response::parse_status_line(b"HTTP/1.1 2x0 OK\n"), None);
    assert_eq!(
        Response::parse_status_line(b"HTTP/1.0 204 No Content\r\n\r\n"),
        Some((Protocol::Http1_0, ResponseCode::NoContent))
    );
}

#[test]
fn clone_keeps_everything() {
    let mut response = Response::new(ResponseCode::Accepted, Protocol::Http0_9);
    response.insert_header(Header::From, b"me".to_vec());
    response.set_content(Some(b"body".to_vec()));
    let copy = response.clone();
    assert_eq!(copy.serialize(), response.serialize());
    assert_eq!(copy.serialize(), b"HTTP/0.9 202 Accepted\nFrom: me\n\r\n\r\nbody".to_vec());
}
