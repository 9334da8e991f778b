//! Responses: status codes with their reason phrases, and the bytes that go
//! out on the wire.

use vstd::prelude::*;
use vstd::string::StringSliceAdditionalSpecFns;
use vstd::utf8::encode_utf8;
use crate::bytes::{
    append, copy_range, find_space, find_word, is_space, lemma_next_byte_bounds,
    lemma_word_ends_at, lemma_word_starts_at, next_byte, next_space, next_word,
};
use crate::request::{line_at, Request};
use crate::header::{header_block, Header};
use crate::protocol::Protocol;

verus! {

#[derive(Debug, Clone, Copy, PartialEq, Eq, Structural)]
pub enum ResponseCode {
    Continue,
    SwitchingProtocols,
    OK,
    Created,
    Accepted,
    NonAuthoritativeInformation,
    NoContent,
    ResetContent,
    PartialContent,
    MultipleChoices,
    MovedPermanently,
    Found,
    SeeOther,
    NotModified,
    UseProxy,
    TemporaryRedirect,
    BadRequest,
    Unauthorized,
    PaymentRequired,
    Forbidden,
    NotFound,
    MethodNotAllowed,
    NotAcceptable,
    ProxyAuthenticationRequired,
    RequestTimeout,
    Conflict,
    Gone,
    LengthRequired,
    PreconditionFailed,
    PayloadTooLarge,
    URITooLarge,
    UnsupportedMediaType,
    RangeNotSatisfiable,
    ExpectationFailed,
    UpgradeRequired,
    InternalServerError,
    NotImplemented,
    BadGateway,
    ServiceUnavailable,
    GatewayTimeout,
    HTTPVersionNotSupported,
}

impl ResponseCode {
    /// The canonical reason phrase of the code.
    pub open spec fn phrase(self) -> Seq<char> {
        match self {
            Self::Continue => "Continue"@,
            Self::SwitchingProtocols => "Switching Protocols"@,
            Self::OK => "OK"@,
            Self::Created => "Created"@,
            Self::Accepted => "Accepted"@,
            Self::NonAuthoritativeInformation => "Non-Authoritative Information"@,
            Self::NoContent => "No Content"@,
            Self::ResetContent => "Reset Content"@,
            Self::PartialContent => "Partial Content"@,
            Self::MultipleChoices => "Multiple Choices"@,
            Self::MovedPermanently => "Moved Permanently"@,
            Self::Found => "Found"@,
            Self::SeeOther => "See Other"@,
            Self::NotModified => "Not Modified"@,
            Self::UseProxy => "Use Proxy"@,
            Self::TemporaryRedirect => "Temporary Redirect"@,
            Self::BadRequest => "Bad Request"@,
            Self::Unauthorized => "Unauthorized"@,
            Self::PaymentRequired => "Payment Required"@,
            Self::Forbidden => "Forbidden"@,
            Self::NotFound => "Not Found"@,
            Self::MethodNotAllowed => "Method Not Allowed"@,
            Self::NotAcceptable => "Not Acceptable"@,
            Self::ProxyAuthenticationRequired => "Proxy Authentication Required"@,
            Self::RequestTimeout => "Request Timeout"@,
            Self::Conflict => "Conflict"@,
            Self::Gone => "Gone"@,
            Self::LengthRequired => "Length Required"@,
            Self::PreconditionFailed => "Precondition Failed"@,
            Self::PayloadTooLarge => "Payload Too Large"@,
            Self::URITooLarge => "URI Too Long"@,
            Self::UnsupportedMediaType => "Unsupported Media Type"@,
            Self::RangeNotSatisfiable => "Range Not Satisfiable"@,
            Self::ExpectationFailed => "Expectation Failed"@,
            Self::UpgradeRequired => "Upgrade Required"@,
            Self::InternalServerError => "Internal Server Error"@,
            Self::NotImplemented => "Not Implemented"@,
            Self::BadGateway => "Bad Gateway"@,
            Self::ServiceUnavailable => "Service Unavailable"@,
            Self::GatewayTimeout => "Gateway Timeout"@,
            Self::HTTPVersionNotSupported => "HTTP Version Not Supported"@,
        }
    }

    /// The code as a number.
    pub open spec fn number(self) -> int {
        match self {
            Self::Continue => 100,
            Self::SwitchingProtocols => 101,
            Self::OK => 200,
            Self::Created => 201,
            Self::Accepted => 202,
            Self::NonAuthoritativeInformation => 203,
            Self::NoContent => 204,
            Self::ResetContent => 205,
            Self::PartialContent => 206,
            Self::MultipleChoices => 300,
            Self::MovedPermanently => 301,
            Self::Found => 302,
            Self::SeeOther => 303,
            Self::NotModified => 304,
            Self::UseProxy => 305,
            Self::TemporaryRedirect => 307,
            Self::BadRequest => 400,
            Self::Unauthorized => 401,
            Self::PaymentRequired => 402,
            Self::Forbidden => 403,
            Self::NotFound => 404,
            Self::MethodNotAllowed => 405,
            Self::NotAcceptable => 406,
            Self::ProxyAuthenticationRequired => 407,
            Self::RequestTimeout => 408,
            Self::Conflict => 409,
            Self::Gone => 410,
            Self::LengthRequired => 411,
            Self::PreconditionFailed => 412,
            Self::PayloadTooLarge => 413,
            Self::URITooLarge => 414,
            Self::UnsupportedMediaType => 415,
            Self::RangeNotSatisfiable => 416,
            Self::ExpectationFailed => 417,
            Self::UpgradeRequired => 426,
            Self::InternalServerError => 500,
            Self::NotImplemented => 501,
            Self::BadGateway => 502,
            Self::ServiceUnavailable => 503,
            Self::GatewayTimeout => 504,
            Self::HTTPVersionNotSupported => 505,
        }
    }

    /// The code that a number stands for, if it is one of the set.
    pub open spec fn of_number(number: int) -> Option<ResponseCode> {
        if number == 100 {
            Some(Self::Continue)
        } else         if number == 101 {
            Some(Self::SwitchingProtocols)
        } else         if number == 200 {
            Some(Self::OK)
        } else         if number == 201 {
            Some(Self::Created)
        } else         if number == 202 {
            Some(Self::Accepted)
        } else         if number == 203 {
            Some(Self::NonAuthoritativeInformation)
        } else         if number == 204 {
            Some(Self::NoContent)
        } else         if number == 205 {
            Some(Self::ResetContent)
        } else         if number == 206 {
            Some(Self::PartialContent)
        } else         if number == 300 {
            Some(Self::MultipleChoices)
        } else         if number == 301 {
            Some(Self::MovedPermanently)
        } else         if number == 302 {
            Some(Self::Found)
        } else         if number == 303 {
            Some(Self::SeeOther)
        } else         if number == 304 {
            Some(Self::NotModified)
        } else         if number == 305 {
            Some(Self::UseProxy)
        } else         if number == 307 {
            Some(Self::TemporaryRedirect)
        } else         if number == 400 {
            Some(Self::BadRequest)
        } else         if number == 401 {
            Some(Self::Unauthorized)
        } else         if number == 402 {
            Some(Self::PaymentRequired)
        } else         if number == 403 {
            Some(Self::Forbidden)
        } else         if number == 404 {
            Some(Self::NotFound)
        } else         if number == 405 {
            Some(Self::MethodNotAllowed)
        } else         if number == 406 {
            Some(Self::NotAcceptable)
        } else         if number == 407 {
            Some(Self::ProxyAuthenticationRequired)
        } else         if number == 408 {
            Some(Self::RequestTimeout)
        } else         if number == 409 {
            Some(Self::Conflict)
        } else         if number == 410 {
            Some(Self::Gone)
        } else         if number == 411 {
            Some(Self::LengthRequired)
        } else         if number == 412 {
            Some(Self::PreconditionFailed)
        } else         if number == 413 {
            Some(Self::PayloadTooLarge)
        } else         if number == 414 {
            Some(Self::URITooLarge)
        } else         if number == 415 {
            Some(Self::UnsupportedMediaType)
        } else         if number == 416 {
            Some(Self::RangeNotSatisfiable)
        } else         if number == 417 {
            Some(Self::ExpectationFailed)
        } else         if number == 426 {
            Some(Self::UpgradeRequired)
        } else         if number == 500 {
            Some(Self::InternalServerError)
        } else         if number == 501 {
            Some(Self::NotImplemented)
        } else         if number == 502 {
            Some(Self::BadGateway)
        } else         if number == 503 {
            Some(Self::ServiceUnavailable)
        } else         if number == 504 {
            Some(Self::GatewayTimeout)
        } else         if number == 505 {
            Some(Self::HTTPVersionNotSupported)
        } else {
            None
        }
    }

    pub fn as_phrase(&self) -> (phrase: &'static str)
        ensures
            phrase@ == self.phrase(),
    {
        match self {
            Self::Continue => "Continue",
            Self::SwitchingProtocols => "Switching Protocols",
            Self::OK => "OK",
            Self::Created => "Created",
            Self::Accepted => "Accepted",
            Self::NonAuthoritativeInformation => "Non-Authoritative Information",
            Self::NoContent => "No Content",
            Self::ResetContent => "Reset Content",
            Self::PartialContent => "Partial Content",
            Self::MultipleChoices => "Multiple Choices",
            Self::MovedPermanently => "Moved Permanently",
            Self::Found => "Found",
            Self::SeeOther => "See Other",
            Self::NotModified => "Not Modified",
            Self::UseProxy => "Use Proxy",
            Self::TemporaryRedirect => "Temporary Redirect",
            Self::BadRequest => "Bad Request",
            Self::Unauthorized => "Unauthorized",
            Self::PaymentRequired => "Payment Required",
            Self::Forbidden => "Forbidden",
            Self::NotFound => "Not Found",
            Self::MethodNotAllowed => "Method Not Allowed",
            Self::NotAcceptable => "Not Acceptable",
            Self::ProxyAuthenticationRequired => "Proxy Authentication Required",
            Self::RequestTimeout => "Request Timeout",
            Self::Conflict => "Conflict",
            Self::Gone => "Gone",
            Self::LengthRequired => "Length Required",
            Self::PreconditionFailed => "Precondition Failed",
            Self::PayloadTooLarge => "Payload Too Large",
            Self::URITooLarge => "URI Too Long",
            Self::UnsupportedMediaType => "Unsupported Media Type",
            Self::RangeNotSatisfiable => "Range Not Satisfiable",
            Self::ExpectationFailed => "Expectation Failed",
            Self::UpgradeRequired => "Upgrade Required",
            Self::InternalServerError => "Internal Server Error",
            Self::NotImplemented => "Not Implemented",
            Self::BadGateway => "Bad Gateway",
            Self::ServiceUnavailable => "Service Unavailable",
            Self::GatewayTimeout => "Gateway Timeout",
            Self::HTTPVersionNotSupported => "HTTP Version Not Supported",
        }
    }

    /// The three-digit number of the code.
    pub fn as_number(&self) -> (number: u16)
        ensures
            number == self.number(),
            100 <= number <= 999,
            Self::of_number(number as int) == Some(*self),
    {
        match self {
            Self::Continue => 100,
            Self::SwitchingProtocols => 101,
            Self::OK => 200,
            Self::Created => 201,
            Self::Accepted => 202,
            Self::NonAuthoritativeInformation => 203,
            Self::NoContent => 204,
            Self::ResetContent => 205,
            Self::PartialContent => 206,
            Self::MultipleChoices => 300,
            Self::MovedPermanently => 301,
            Self::Found => 302,
            Self::SeeOther => 303,
            Self::NotModified => 304,
            Self::UseProxy => 305,
            Self::TemporaryRedirect => 307,
            Self::BadRequest => 400,
            Self::Unauthorized => 401,
            Self::PaymentRequired => 402,
            Self::Forbidden => 403,
            Self::NotFound => 404,
            Self::MethodNotAllowed => 405,
            Self::NotAcceptable => 406,
            Self::ProxyAuthenticationRequired => 407,
            Self::RequestTimeout => 408,
            Self::Conflict => 409,
            Self::Gone => 410,
            Self::LengthRequired => 411,
            Self::PreconditionFailed => 412,
            Self::PayloadTooLarge => 413,
            Self::URITooLarge => 414,
            Self::UnsupportedMediaType => 415,
            Self::RangeNotSatisfiable => 416,
            Self::ExpectationFailed => 417,
            Self::UpgradeRequired => 426,
            Self::InternalServerError => 500,
            Self::NotImplemented => 501,
            Self::BadGateway => 502,
            Self::ServiceUnavailable => 503,
            Self::GatewayTimeout => 504,
            Self::HTTPVersionNotSupported => 505,
        }
    }

    /// The code with the number `number`, if there is one.
    pub fn from_number(number: u16) -> (code: Option<ResponseCode>)
        ensures
            code == Self::of_number(number as int),
    {
        if number == 100 {
            Some(Self::Continue)
        } else         if number == 101 {
            Some(Self::SwitchingProtocols)
        } else         if number == 200 {
            Some(Self::OK)
        } else         if number == 201 {
            Some(Self::Created)
        } else         if number == 202 {
            Some(Self::Accepted)
        } else         if number == 203 {
            Some(Self::NonAuthoritativeInformation)
        } else         if number == 204 {
            Some(Self::NoContent)
        } else         if number == 205 {
            Some(Self::ResetContent)
        } else         if number == 206 {
            Some(Self::PartialContent)
        } else         if number == 300 {
            Some(Self::MultipleChoices)
        } else         if number == 301 {
            Some(Self::MovedPermanently)
        } else         if number == 302 {
            Some(Self::Found)
        } else         if number == 303 {
            Some(Self::SeeOther)
        } else         if number == 304 {
            Some(Self::NotModified)
        } else         if number == 305 {
            Some(Self::UseProxy)
        } else         if number == 307 {
            Some(Self::TemporaryRedirect)
        } else         if number == 400 {
            Some(Self::BadRequest)
        } else         if number == 401 {
            Some(Self::Unauthorized)
        } else         if number == 402 {
            Some(Self::PaymentRequired)
        } else         if number == 403 {
            Some(Self::Forbidden)
        } else         if number == 404 {
            Some(Self::NotFound)
        } else         if number == 405 {
            Some(Self::MethodNotAllowed)
        } else         if number == 406 {
            Some(Self::NotAcceptable)
        } else         if number == 407 {
            Some(Self::ProxyAuthenticationRequired)
        } else         if number == 408 {
            Some(Self::RequestTimeout)
        } else         if number == 409 {
            Some(Self::Conflict)
        } else         if number == 410 {
            Some(Self::Gone)
        } else         if number == 411 {
            Some(Self::LengthRequired)
        } else         if number == 412 {
            Some(Self::PreconditionFailed)
        } else         if number == 413 {
            Some(Self::PayloadTooLarge)
        } else         if number == 414 {
            Some(Self::URITooLarge)
        } else         if number == 415 {
            Some(Self::UnsupportedMediaType)
        } else         if number == 416 {
            Some(Self::RangeNotSatisfiable)
        } else         if number == 417 {
            Some(Self::ExpectationFailed)
        } else         if number == 426 {
            Some(Self::UpgradeRequired)
        } else         if number == 500 {
            Some(Self::InternalServerError)
        } else         if number == 501 {
            Some(Self::NotImplemented)
        } else         if number == 502 {
            Some(Self::BadGateway)
        } else         if number == 503 {
            Some(Self::ServiceUnavailable)
        } else         if number == 504 {
            Some(Self::GatewayTimeout)
        } else         if number == 505 {
            Some(Self::HTTPVersionNotSupported)
        } else {
            None
        }
    }
}

/// A response as a mathematical value.
pub struct ResponseView {
    pub code: ResponseCode,
    pub protocol: Protocol,
    pub headers: Seq<(Header, Seq<u8>)>,
    pub content: Option<Seq<u8>>,
}

/// The three decimal digits of a number between 100 and 999.
pub open spec fn three_digits(number: int) -> Seq<u8> {
    seq![(48 + number / 100) as u8, (48 + (number / 10) % 10) as u8, (48 + number % 10) as u8]
}

impl ResponseView {
    /// The status line, with the line feed that ends it.
    pub open spec fn status_line(self) -> Seq<u8> {
        self.protocol.wire() + seq![32u8] + three_digits(self.code.number()) + seq![32u8]
            + encode_utf8(self.code.phrase()) + seq![10u8]
    }

    /// The whole response on the wire: status line, header lines, the blank
    /// line that ends the head, and the content where there is one.
    pub open spec fn wire(self) -> Seq<u8> {
        self.status_line() + header_block(self.headers) + seq![13u8, 10u8, 13u8, 10u8]
            + match self.content {
            Some(body) => body,
            None => Seq::empty(),
        }
    }
}

/// Whether `b` is a decimal digit.
pub open spec fn is_digit(b: u8) -> bool {
    48 <= b && b <= 57
}

/// The number that three decimal digits write.
pub open spec fn number_of(digits: Seq<u8>) -> int {
    100 * (digits[0] - 48) + 10 * (digits[1] - 48) + (digits[2] - 48)
}

/// What the status line of `s` says: the protocol that its first token
/// names and the code that its second token, three digits, writes. There is
/// none where a token is missing or stands for nothing.
pub open spec fn status_line_of(s: Seq<u8>) -> Option<(Protocol, ResponseCode)> {
    let line = line_at(s, 0);
    let p0 = next_word(line, 0);
    let p1 = next_space(line, p0);
    let c0 = next_word(line, p1);
    let c1 = next_space(line, c0);
    let digits = line.subrange(c0, c1);
    if p0 >= line.len() || c0 >= line.len() || c1 - c0 != 3 || !is_digit(digits[0]) || !is_digit(
        digits[1],
    ) || !is_digit(digits[2]) {
        None
    } else {
        match (Protocol::of_wire(Some(line.subrange(p0, p1))), ResponseCode::of_number(
            number_of(digits),
        )) {
            (Some(protocol), Some(code)) => Some((protocol, code)),
            _ => None,
        }
    }
}

pub struct Response {
    pub code: ResponseCode,
    pub protocol: Protocol,
    pub header_fields: Vec<(Header, Vec<u8>)>,
    pub content: Option<Vec<u8>>,
}

impl View for Response {
    type V = ResponseView;

    open spec fn view(&self) -> ResponseView {
        ResponseView {
            code: self.code,
            protocol: self.protocol,
            headers: Seq::new(
                self.header_fields@.len(),
                |i: int| (self.header_fields@[i].0, self.header_fields@[i].1@),
            ),
            content: match self.content {
                Some(body) => Some(body@),
                None => None,
            },
        }
    }
}

impl Response {
    /// A response with the given status and protocol, no header field and no
    /// content.
    pub fn new(code: ResponseCode, protocol: Protocol) -> (response: Response)
        ensures
            response@ == (ResponseView {
                code,
                protocol,
                headers: Seq::empty(),
                content: None,
            }),
    {
        let response = Response { code, protocol, header_fields: Vec::new(), content: None };
        proof {
            assert(response@.headers =~= Seq::empty());
        }
        response
    }

    pub fn get_code(&self) -> (code: ResponseCode)
        ensures
            code == self@.code,
    {
        self.code
    }

    pub fn get_protocol(&self) -> (protocol: Protocol)
        ensures
            protocol == self@.protocol,
    {
        self.protocol
    }

    /// Sets or removes the content.
    pub fn set_content(&mut self, content: Option<Vec<u8>>)
        ensures
            final(self)@ == (ResponseView {
                content: match content {
                    Some(body) => Some(body@),
                    None => None,
                },
                ..old(self)@
            }),
    {
        self.content = content;
    }

    /// Gives the header `header` the value `value`: in place of its old value
    /// where the response already has that header, and as a new last field
    /// where it has not. The old value, if any, is returned.
    pub fn insert_header(&mut self, header: Header, value: Vec<u8>) -> (replaced: Option<Vec<u8>>)
        ensures
            final(self)@.code == old(self)@.code,
            final(self)@.protocol == old(self)@.protocol,
            final(self)@.content == old(self)@.content,
            match replaced {
                Some(previous) => exists|i: int|
                    0 <= i < old(self)@.headers.len() && (#[trigger] old(self)@.headers[i]).0.same_as(
                        header,
                    ) && previous@ == old(self)@.headers[i].1 && (forall|j: int|
                        0 <= j < i ==> !(#[trigger] old(self)@.headers[j]).0.same_as(header))
                        && final(self)@.headers == old(self)@.headers.update(i, (header, value@)),
                None => (forall|j: int|
                    0 <= j < old(self)@.headers.len() ==> !(#[trigger] old(self)@.headers[j]).0.same_as(
                        header,
                    )) && final(self)@.headers == old(self)@.headers.push((header, value@)),
            },
    {
        let mut i: usize = 0;
        while i < self.header_fields.len()
            invariant
                i <= self.header_fields@.len(),
                *self == *old(self),
                forall|j: int| 0 <= j < i ==> !(#[trigger] self@.headers[j]).0.same_as(header),
            decreases self.header_fields@.len() - i,
        {
            if self.header_fields[i].0.is(&header) {
                let mut pair = (header, value);
                let ghost new_pair = (pair.0, pair.1@);
                self.header_fields.set_and_swap(i, &mut pair);
                proof {
                    assert(old(self)@.headers[i as int].0.same_as(header));
                    assert(self@.headers =~= old(self)@.headers.update(i as int, new_pair));
                }
                return Some(pair.1);
            }
            i += 1;
        }
        self.header_fields.push((header, value));
        proof {
            assert(self@.headers =~= old(self)@.headers.push((header, value@)));
        }
        None
    }

    /// Reads the status line of a serialized response: its protocol and its
    /// status code.
    pub fn parse_status_line(bytes: &[u8]) -> (status: Option<(Protocol, ResponseCode)>)
        ensures
            status == status_line_of(bytes@),
    {
        let line = Request::line_from(bytes, 0);
        let p0 = find_word(line.as_slice(), 0);
        if p0 >= line.len() {
            return None;
        }
        let p1 = find_space(line.as_slice(), p0);
        let c0 = find_word(line.as_slice(), p1);
        if c0 >= line.len() {
            return None;
        }
        let c1 = find_space(line.as_slice(), c0);
        if c1 - c0 != 3 {
            return None;
        }
        let d0: u8 = line[c0];
        let d1: u8 = line[c0 + 1];
        let d2: u8 = line[c0 + 2];
        if d0 < 48 || d0 > 57 || d1 < 48 || d1 > 57 || d2 < 48 || d2 > 57 {
            return None;
        }
        let number: u16 = 100 * ((d0 - 48) as u16) + 10 * ((d1 - 48) as u16) + ((d2 - 48) as u16);
        let token = copy_range(line.as_slice(), p0, p1);
        match (Protocol::parse(Some(token.as_slice())), ResponseCode::from_number(number)) {
            (Ok(protocol), Some(code)) => Some((protocol, code)),
            _ => None,
        }
    }

    /// The bytes of the response as they go out on the wire.
    pub fn serialize(&self) -> (bytes: Vec<u8>)
        ensures
            bytes@ == self@.wire(),
    {
        let mut out: Vec<u8> = Vec::new();
        append(&mut out, self.protocol.as_str().as_bytes());
        out.push(32u8);
        let number: u16 = self.code.as_number();
        out.push((48 + number / 100) as u8);
        out.push((48 + (number / 10) % 10) as u8);
        out.push((48 + number % 10) as u8);
        out.push(32u8);
        append(&mut out, self.code.as_phrase().as_bytes());
        out.push(10u8);
        proof {
            assert(out@ =~= self@.status_line());
        }
        let mut i: usize = 0;
        while i < self.header_fields.len()
            invariant
                i <= self.header_fields@.len(),
                out@ == self@.status_line() + header_block(self@.headers.take(i as int)),
            decreases self.header_fields@.len() - i,
        {
            let ghost before = out@;
            append(&mut out, self.header_fields[i].0.as_str().as_bytes());
            out.push(58u8);
            out.push(32u8);
            append(&mut out, self.header_fields[i].1.as_slice());
            out.push(10u8);
            proof {
                let upto = self@.headers.take(i + 1);
                assert(upto.drop_last() =~= self@.headers.take(i as int));
                assert(upto.last() == self@.headers[i as int]);
                assert(out@ =~= self@.status_line() + header_block(upto));
            }
            i += 1;
        }
        proof {
            assert(self@.headers.take(i as int) =~= self@.headers);
        }
        out.push(13u8);
        out.push(10u8);
        out.push(13u8);
        out.push(10u8);
        match &self.content {
            Some(body) => {
                append(&mut out, body.as_slice());
            },
            None => {},
        }
        proof {
            assert(out@ =~= self@.wire());
        }
        out
    }
}

impl Clone for Response {
    fn clone(&self) -> (copy: Self)
        ensures
            copy@ == self@,
    {
        let mut header_fields: Vec<(Header, Vec<u8>)> = Vec::new();
        let mut i: usize = 0;
        while i < self.header_fields.len()
            invariant
                i <= self.header_fields@.len(),
                header_fields@.len() == i,
                forall|j: int|
                    0 <= j < i ==> (#[trigger] header_fields@[j]).0 == self.header_fields@[j].0
                        && header_fields@[j].1@ == self.header_fields@[j].1@,
            decreases self.header_fields@.len() - i,
        {
            let name = self.header_fields[i].0.clone();
            let value = self.header_fields[i].1.clone();
            header_fields.push((name, value));
            i += 1;
        }
        let content = match &self.content {
            Some(body) => Some(body.clone()),
            None => None,
        };
        let copy = Response { code: self.code, protocol: self.protocol, header_fields, content };
        proof {
            assert(copy@.headers =~= self@.headers);
        }
        copy
    }
}

/// The wire tokens of the three protocols: their bytes, none of them white
/// space, and no two of them the same.
pub proof fn lemma_protocol_tokens(protocol: Protocol)
    requires
        protocol != Protocol::Missing,
    ensures
        protocol.wire().len() == 8,
        forall|i: int| 0 <= i < 8 ==> !is_space(#[trigger] protocol.wire()[i]),
        Protocol::of_wire(Some(protocol.wire())) == Some(protocol),
{
    broadcast use vstd::string::is_ascii_spec_bytes;

    reveal_strlit("HTTP/1.1");
    reveal_strlit("HTTP/1.0");
    reveal_strlit("HTTP/0.9");
    assert(vstd::string::is_ascii("HTTP/1.1"));
    assert(vstd::string::is_ascii("HTTP/1.0"));
    assert(vstd::string::is_ascii("HTTP/0.9"));
    let a = "HTTP/1.1".spec_bytes();
    let b = "HTTP/1.0".spec_bytes();
    let c = "HTTP/0.9".spec_bytes();
    assert(a[7] == 49 && b[7] == 48 && c[7] == 57);
    assert(a[0] == 72 && a[1] == 84 && a[2] == 84 && a[3] == 80 && a[4] == 47 && a[5] == 49 && a[6]
        == 46);
    assert(b[0] == 72 && b[1] == 84 && b[2] == 84 && b[3] == 80 && b[4] == 47 && b[5] == 49 && b[6]
        == 46);
    assert(c[0] == 72 && c[1] == 84 && c[2] == 84 && c[3] == 80 && c[4] == 47 && c[5] == 48 && c[6]
        == 46);
}

/// The three digits of a status code write its number, and every one of
/// them is a digit.
pub proof fn lemma_digits_write_the_number(code: ResponseCode)
    ensures
        three_digits(code.number()).len() == 3,
        is_digit(three_digits(code.number())[0]),
        is_digit(three_digits(code.number())[1]),
        is_digit(three_digits(code.number())[2]),
        number_of(three_digits(code.number())) == code.number(),
        ResponseCode::of_number(code.number()) == Some(code),
{
}

/// Reading the status line of a serialized response gives back the protocol
/// and the status code that the response was made with, for every response
/// that names a protocol.
pub proof fn lemma_status_line_round_trip(response: ResponseView)
    requires
        response.protocol != Protocol::Missing,
    ensures
        status_line_of(response.wire()) == Some((response.protocol, response.code)),
{
    lemma_protocol_tokens(response.protocol);
    lemma_digits_write_the_number(response.code);
    let wire = response.wire();
    let token = response.protocol.wire();
    let digits = three_digits(response.code.number());
    let head = token + seq![32u8] + digits + seq![32u8];
    assert(head.len() == 13);
    assert(wire.len() >= 14);
    assert forall|i: int| 0 <= i < 13 implies wire[i] == head[i] by {}
    assert forall|i: int| 0 <= i < 8 implies wire[i] == #[trigger] token[i] by {}
    assert(wire[8] == 32);
    assert(wire[9] == digits[0] && wire[10] == digits[1] && wire[11] == digits[2]);
    assert(wire[12] == 32);
    let end = next_byte(wire, 10, 0);
    lemma_next_byte_bounds(wire, 10, 0);
    assert(end >= 13) by {
        if end < 13 {
            assert(wire[end] == 10);
            if end < 8 {
                assert(is_space(token[end]));
            }
        }
    }
    let line = line_at(wire, 0);
    assert(line.len() >= 13 && (forall|i: int| 0 <= i < 13 ==> line[i] == wire[i])) by {
        let raw = wire.subrange(0, end);
        if end == 13 {
            assert(raw.last() == wire[12]);
        }
    }
    assert(!is_space(line[0])) by {
        assert(line[0] == token[0]);
    }
    lemma_word_starts_at(line, 0, 0);
    assert forall|i: int| 0 <= i < 8 implies !is_space(#[trigger] line[i]) by {
        assert(line[i] == token[i]);
    }
    lemma_word_ends_at(line, 0, 8);
    lemma_word_starts_at(line, 8, 9);
    lemma_word_ends_at(line, 9, 12);
    assert(line.subrange(0, 8) =~= token);
    assert(line.subrange(9, 12) =~= digits);
}

} // verus!
