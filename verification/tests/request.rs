use http_server::header::Header;
use http_server::protocol::Protocol;
use http_server::request::{Method, Request, RequestParseError};

#[test]
fn no_bytes_no_request_line() {
    assert!(matches!(Request::parse(b""), Err(RequestParseError::RequestLineMissing)));
}

#[test]
fn blank_first_line_has_no_method() {
    assert!(matches!(Request::parse(b"\r\n"), Err(RequestParseError::MethodMissing)));
    assert!(matches!(Request::parse(b"   \t"), Err(RequestParseError::MethodMissing)));
    assert!(matches!(Request::parse(b"\nGET / HTTP/1.1"), Err(RequestParseError::MethodMissing)));
}

#[test]
fn unknown_method_carries_the_token() {
    match Request::parse(b"get / HTTP/1.1\r\n\r\n") {
        Err(RequestParseError::UnknownMethod(token)) => assert_eq!(token, b"get".to_vec()),
        _ => panic!("expected an unknown method"),
    }
}

#[test]
fn method_alone_has_no_target() {
    assert!(matches!(Request::parse(b"GET"), Err(RequestParseError::TargetMissing)));
    assert!(matches!(Request::parse(b"GET  \r\nHost: x"), Err(RequestParseError::TargetMissing)));
}

#[test]
fn unknown_method_is_reported_before_a_missing_target() {
    assert!(matches!(Request::parse(b"FETCH"), Err(RequestParseError::UnknownMethod(_))));
}

#[test]
fn unknown_protocol_carries_the_token() {
    match Request::parse(b"GET / HTTP/2\r\n\r\n") {
        Err(RequestParseError::UnknownProtocol(token)) => assert_eq!(token, b"HTTP/2".to_vec()),
        _ => panic!("expected an unknown protocol"),
    }
}

#[test]
fn absent_protocol_is_missing() {
    let request = Request::parse(b"DELETE /thing\r\n").unwrap();
    assert_eq!(request.get_method(), Method::Delete);
    assert_eq!(request.get_target(), &b"/thing".to_vec());
    assert_eq!(request.get_protocol(), Protocol::Missing);
    assert!(request.header_fields.is_empty());
}

#[test]
fn every_method_and_protocol_is_read() {
    let methods = [
        ("GET", Method::Get),
        ("HEAD", Method::Head),
        ("POST", Method::Post),
        ("PUT", Method::Put),
        ("DELETE", Method::Delete),
        ("CONNECT", Method::Connect),
        ("OPTIONS", Method::Options),
        ("TRACE", Method::Trace),
        ("PATCH", Method::Patch),
    ];
    for (token, method) in methods {
        assert_eq!(Method::parse(token.as_bytes()).unwrap(), method);
        assert_eq!(method.as_str(), token);
    }
    assert_eq!(Method::parse(b"GETS").unwrap_err(), b"GETS".to_vec());
    let protocols = [
        ("HTTP/1.1", Protocol::Http1_1),
        ("HTTP/1.0", Protocol::Http1_0),
        ("HTTP/0.9", Protocol::Http0_9),
    ];
    for (token, protocol) in protocols {
        assert_eq!(Protocol::parse(Some(token.as_bytes())).unwrap(), protocol);
        assert_eq!(protocol.as_str(), token);
    }
    assert_eq!(Protocol::parse(None).unwrap(), Protocol::Missing);
    assert_eq!(Protocol::Missing.as_str(), "");
    assert_eq!(Protocol::parse(Some(b"http/1.1")).unwrap_err(), b"http/1.1".to_vec());
}

#[test]
fn headers_are_read_up_to_the_blank_line() {
    let request = Request::parse(
        b"PUT /a?b=c HTTP/1.1\r\nhost:   example.org\r\nContent-Length:12\r\nX-Trace: a:b\r\n\r\nUser-Agent: late\r\n",
    )
    .unwrap();
    assert_eq!(request.method, Method::Put);
    assert_eq!(request.target, b"/a?b=c".to_vec());
    assert_eq!(request.header_fields.len(), 3);
    assert_eq!(request.get_header(&Header::Host), Some(&b"example.org".to_vec()));
    assert_eq!(request.get_header(&Header::ContentLength), Some(&b"12".to_vec()));
    assert_eq!(
        request.get_header(&Header::Other("X-Trace".to_string())),
        Some(&b"a:b".to_vec())
    );
    assert_eq!(request.get_header(&Header::UserAgent), None);
    assert_eq!(request.get_header(&Header::Other("x-trace".to_string())), None);
}

#[test]
fn last_header_of_a_name_wins() {
    let request = Request::parse(b"GET / HTTP/1.1\nHost: a\nHOST: b\n\n").unwrap();
    assert_eq!(request.header_fields.len(), 2);
    assert_eq!(request.get_header(&Header::Host), Some(&b"b".to_vec()));
}

#[test]
fn bare_line_feed_ends_the_request_line() {
    let request = Request::parse(b"HEAD /x HTTP/1.0\nReferer: y\n").unwrap();
    assert_eq!(request.method, Method::Head);
    assert_eq!(request.protocol, Protocol::Http1_0);
    assert_eq!(request.get_header(&Header::Referer), Some(&b"y".to_vec()));
}

#[test]
fn header_names() {
    let known = [
        ("content-length", "Content-Length"),
        ("CONTENT-TYPE", "Content-Type"),
        ("Content-Encoding", "Content-Encoding"),
        ("content-Language", "Content-Language"),
        ("content-location", "Content-Location"),
        ("from", "From"),
        ("hOsT", "Host"),
        ("referer", "Referer"),
        ("referrer-policy", "Referrer-Policy"),
        ("user-agent", "User-Agent"),
    ];
    for (written, canonical) in known {
        let header = Header::from_name(written.as_bytes());
        assert!(!matches!(header, Header::Other(_)));
        assert_eq!(header.as_str(), canonical);
    }
    let other = Header::from_name(b"X-Custom");
    assert!(matches!(other, Header::Other(_)));
    assert_eq!(other.as_str(), "X-Custom");
    assert!(other.is(&Header::Other("X-Custom".to_string())));
    assert!(!other.is(&Header::Host));
    assert!(Header::Host.is(&Header::from_name(b"HOST")));
    assert!(other.clone().is(&other));
}

#[test]
fn header_name_with_ill_formed_bytes_is_decoded_lossily() {
    let header = Header::from_name(&[b'X', 0xff, b'Y']);
    assert_eq!(header.as_str(), "X\u{fffd}Y");
}

#[test]
fn path_parameters_are_looked_up_by_label() {
    let mut request = Request::parse(b"GET /a/b HTTP/1.1\r\n\r\n").unwrap();
    assert_eq!(request.get_path_parameter(b"x"), None);
    request.bind_path_parameter(b"x".to_vec(), b"1".to_vec());
    request.bind_path_parameter(b"y".to_vec(), b"2".to_vec());
    request.bind_path_parameter(b"x".to_vec(), b"3".to_vec());
    assert_eq!(request.get_path_parameter(b"x"), Some(&b"3".to_vec()));
    assert_eq!(request.get_path_parameter(b"y"), Some(&b"2".to_vec()));
    assert_eq!(request.get_path_parameter(b"z"), None);
}

#[test]
fn request_head_as_text() {
    let request = Request::parse(b"GET /a HTTP/1.1\r\nhost: x\r\nX-Y:  z\r\n\r\n").unwrap();
    assert_eq!(request.serialize(), b"GET /a HTTP/1.1\nHost: x\nX-Y: z\n\n\n".to_vec());
    let bare = Request::parse(b"PATCH /b").unwrap();
    assert_eq!(bare.serialize(), b"PATCH /b \n\n\n".to_vec());
}
