//! Requests, and the reading of a request head from the bytes a peer sent.

use vstd::prelude::*;
use vstd::string::StringSliceAdditionalSpecFns;
use vstd::utf8::encode_utf8;
use crate::bytes::{
    append, copy_range, find_byte, find_space, find_word, lemma_next_byte_bounds, next_byte, next_space,
    next_word, same_bytes,
};
use crate::header::{header_block, Header};
pub use crate::protocol::Protocol;

verus! {

#[derive(Clone, Copy, Debug, PartialEq, Eq, Structural)]
pub enum Method {
    Get,
    Head,
    Post,
    Put,
    Delete,
    Connect,
    Options,
    Trace,
    Patch,
}

impl Method {
    /// The method's token as text.
    pub open spec fn text(self) -> Seq<char> {
        match self {
            Self::Get => "GET"@,
            Self::Head => "HEAD"@,
            Self::Post => "POST"@,
            Self::Put => "PUT"@,
            Self::Delete => "DELETE"@,
            Self::Connect => "CONNECT"@,
            Self::Options => "OPTIONS"@,
            Self::Trace => "TRACE"@,
            Self::Patch => "PATCH"@,
        }
    }

    /// The method that a token of the wire names, if any.
    pub open spec fn of_wire(token: Seq<u8>) -> Option<Method> {
        if token == "GET".spec_bytes() {
            Some(Self::Get)
        } else if token == "HEAD".spec_bytes() {
            Some(Self::Head)
        } else if token == "POST".spec_bytes() {
            Some(Self::Post)
        } else if token == "PUT".spec_bytes() {
            Some(Self::Put)
        } else if token == "DELETE".spec_bytes() {
            Some(Self::Delete)
        } else if token == "CONNECT".spec_bytes() {
            Some(Self::Connect)
        } else if token == "OPTIONS".spec_bytes() {
            Some(Self::Options)
        } else if token == "TRACE".spec_bytes() {
            Some(Self::Trace)
        } else if token == "PATCH".spec_bytes() {
            Some(Self::Patch)
        } else {
            None
        }
    }

    pub fn as_str(&self) -> (token: &'static str)
        ensures
            token@ == self.text(),
    {
        match self {
            Self::Get => "GET",
            Self::Head => "HEAD",
            Self::Post => "POST",
            Self::Put => "PUT",
            Self::Delete => "DELETE",
            Self::Connect => "CONNECT",
            Self::Options => "OPTIONS",
            Self::Trace => "TRACE",
            Self::Patch => "PATCH",
        }
    }

    /// Reads the method token of a request line. An unknown token comes back
    /// as the error.
    pub fn parse(token: &[u8]) -> (result: Result<Method, Vec<u8>>)
        ensures
            match result {
                Ok(m) => Self::of_wire(token@) == Some(m),
                Err(t) => Self::of_wire(token@).is_none() && t@ == token@,
            },
    {
        if same_bytes(token, "GET".as_bytes()) {
            Ok(Self::Get)
        } else if same_bytes(token, "HEAD".as_bytes()) {
            Ok(Self::Head)
        } else if same_bytes(token, "POST".as_bytes()) {
            Ok(Self::Post)
        } else if same_bytes(token, "PUT".as_bytes()) {
            Ok(Self::Put)
        } else if same_bytes(token, "DELETE".as_bytes()) {
            Ok(Self::Delete)
        } else if same_bytes(token, "CONNECT".as_bytes()) {
            Ok(Self::Connect)
        } else if same_bytes(token, "OPTIONS".as_bytes()) {
            Ok(Self::Options)
        } else if same_bytes(token, "TRACE".as_bytes()) {
            Ok(Self::Trace)
        } else if same_bytes(token, "PATCH".as_bytes()) {
            Ok(Self::Patch)
        } else {
            let copy = copy_range(token, 0, token.len());
            proof {
                assert(token@.subrange(0, token@.len() as int) =~= token@);
            }
            Err(copy)
        }
    }
}

/// Why the bytes of a request could not be read as one.
#[derive(Debug, Clone)]
pub enum RequestParseError {
    /// There are no bytes at all.
    RequestLineMissing,
    /// The first line holds nothing but white space.
    MethodMissing,
    /// The first token is no method; it is carried along.
    UnknownMethod(Vec<u8>),
    /// The first line ends after the method.
    TargetMissing,
    /// The third token is no known protocol; it is carried along.
    UnknownProtocol(Vec<u8>),
}

/// A parse error as a mathematical value.
pub enum ParseFault {
    RequestLineMissing,
    MethodMissing,
    UnknownMethod(Seq<u8>),
    TargetMissing,
    UnknownProtocol(Seq<u8>),
}

impl View for RequestParseError {
    type V = ParseFault;

    open spec fn view(&self) -> ParseFault {
        match self {
            Self::RequestLineMissing => ParseFault::RequestLineMissing,
            Self::MethodMissing => ParseFault::MethodMissing,
            Self::UnknownMethod(token) => ParseFault::UnknownMethod(token@),
            Self::TargetMissing => ParseFault::TargetMissing,
            Self::UnknownProtocol(token) => ParseFault::UnknownProtocol(token@),
        }
    }
}

/// The line of `s` that starts at `pos`: the bytes up to the next line feed,
/// without it and without a carriage return just before it.
pub open spec fn line_at(s: Seq<u8>, pos: int) -> Seq<u8> {
    let end = next_byte(s, 10, pos);
    let raw = s.subrange(pos, end);
    if end < s.len() && raw.len() > 0 && raw.last() == 13 {
        raw.drop_last()
    } else {
        raw
    }
}

/// What the request line of `s` says: method, target and protocol, or the
/// first fault met when reading it from left to right.
pub open spec fn request_line(s: Seq<u8>) -> Result<(Method, Seq<u8>, Protocol), ParseFault> {
    let line = line_at(s, 0);
    let m0 = next_word(line, 0);
    let m1 = next_space(line, m0);
    let t0 = next_word(line, m1);
    let t1 = next_space(line, t0);
    let p0 = next_word(line, t1);
    let p1 = next_space(line, p0);
    let token = if p0 >= line.len() {
        None
    } else {
        Some(line.subrange(p0, p1))
    };
    if s.len() == 0 {
        Err(ParseFault::RequestLineMissing)
    } else if m0 >= line.len() {
        Err(ParseFault::MethodMissing)
    } else if Method::of_wire(line.subrange(m0, m1)).is_none() {
        Err(ParseFault::UnknownMethod(line.subrange(m0, m1)))
    } else if t0 >= line.len() {
        Err(ParseFault::TargetMissing)
    } else if Protocol::of_wire(token).is_none() {
        Err(ParseFault::UnknownProtocol(line.subrange(p0, p1)))
    } else {
        Ok((
            Method::of_wire(line.subrange(m0, m1)).unwrap(),
            line.subrange(t0, t1),
            Protocol::of_wire(token).unwrap(),
        ))
    }
}

/// The header lines of `s` from position `pos` on, each as the name before
/// its first colon and the value after it, without the white space that
/// leads the value. The list ends before the first line without a colon.
pub open spec fn header_lines(s: Seq<u8>, pos: int) -> Seq<(Seq<u8>, Seq<u8>)>
    decreases s.len() - pos,
{
    if pos < 0 || pos >= s.len() {
        Seq::empty()
    } else {
        let line = line_at(s, pos);
        let colon = next_byte(line, 58, 0);
        let next = next_byte(s, 10, pos) + 1;
        let value = next_word(line, colon + 1);
        if colon >= line.len() {
            Seq::empty()
        } else {
            seq![(line.take(colon), line.skip(value))] + if pos < next && next <= s.len() {
                header_lines(s, next)
            } else {
                Seq::empty()
            }
        }
    }
}

/// The value that a list of pairs gives a key: that of the last pair with it.
pub open spec fn last_value(pairs: Seq<(Seq<u8>, Seq<u8>)>, key: Seq<u8>) -> Option<Seq<u8>>
    decreases pairs.len(),
{
    if pairs.len() == 0 {
        None
    } else if pairs.last().0 == key {
        Some(pairs.last().1)
    } else {
        last_value(pairs.drop_last(), key)
    }
}

pub struct Request {
    pub method: Method,
    pub target: Vec<u8>,
    pub protocol: Protocol,
    pub header_fields: Vec<(Header, Vec<u8>)>,
    pub path_parameters: Vec<(Vec<u8>, Vec<u8>)>,
}

impl Request {
    /// The path parameters as a list of labels and values, in the order in
    /// which they were bound.
    pub open spec fn parameters(self) -> Seq<(Seq<u8>, Seq<u8>)> {
        Seq::new(
            self.path_parameters@.len(),
            |i: int| (self.path_parameters@[i].0@, self.path_parameters@[i].1@),
        )
    }

    /// Whether the header fields are those of the header lines `lines`, one
    /// for one and in their order.
    pub open spec fn has_headers(self, lines: Seq<(Seq<u8>, Seq<u8>)>) -> bool {
        &&& self.header_fields@.len() == lines.len()
        &&& forall|i: int|
            0 <= i < lines.len() ==> (#[trigger] self.header_fields@[i]).0.stands_for(lines[i].0)
                && self.header_fields@[i].1@ == lines[i].1
    }

    /// The value of the last header field with the key `header`.
    pub open spec fn header_value(self, header: Header, upto: int) -> Option<Seq<u8>>
        decreases upto,
    {
        if upto <= 0 || upto > self.header_fields@.len() {
            None
        } else if self.header_fields@[upto - 1].0.same_as(header) {
            Some(self.header_fields@[upto - 1].1@)
        } else {
            self.header_value(header, upto - 1)
        }
    }

    /// Whether `result` is what reading `bytes` as a request gives: the
    /// request that the request line and the header lines describe, with no
    /// path parameter bound yet, or the fault found in the request line.
    pub open spec fn parsed(result: Result<Request, RequestParseError>, bytes: Seq<u8>) -> bool {
        match result {
            Ok(request) => request_line(bytes) == Ok::<_, ParseFault>(
                (request.method, request.target@, request.protocol),
            ) && request.has_headers(header_lines(bytes, next_byte(bytes, 10, 0) + 1))
                && request.path_parameters@.len() == 0,
            Err(error) => request_line(bytes) == Err::<(Method, Seq<u8>, Protocol), _>(error@),
        }
    }

    /// Reads a request from the bytes accumulated on a connection: the request
    /// line, then header lines up to the first line without a colon.
    pub fn parse(bytes: &[u8]) -> (result: Result<Request, RequestParseError>)
        ensures
            Self::parsed(result, bytes@),
    {
        if bytes.len() == 0 {
            return Err(RequestParseError::RequestLineMissing);
        }
        let first_end = find_byte(bytes, 10, 0);
        let line = Self::line_from(bytes, 0);
        let m0 = find_word(line.as_slice(), 0);
        if m0 >= line.len() {
            return Err(RequestParseError::MethodMissing);
        }
        let m1 = find_space(line.as_slice(), m0);
        let method_token = copy_range(line.as_slice(), m0, m1);
        let method = match Method::parse(method_token.as_slice()) {
            Ok(m) => m,
            Err(token) => {
                return Err(RequestParseError::UnknownMethod(token));
            },
        };
        let t0 = find_word(line.as_slice(), m1);
        if t0 >= line.len() {
            return Err(RequestParseError::TargetMissing);
        }
        let t1 = find_space(line.as_slice(), t0);
        let target = copy_range(line.as_slice(), t0, t1);
        let p0 = find_word(line.as_slice(), t1);
        let protocol = if p0 >= line.len() {
            Protocol::Missing
        } else {
            let p1 = find_space(line.as_slice(), p0);
            let protocol_token = copy_range(line.as_slice(), p0, p1);
            match Protocol::parse(Some(protocol_token.as_slice())) {
                Ok(p) => p,
                Err(token) => {
                    return Err(RequestParseError::UnknownProtocol(token));
                },
            }
        };
        let header_fields = if first_end < bytes.len() {
            Self::parse_headers(bytes, first_end + 1)
        } else {
            Vec::new()
        };
        Ok(Request { method, target, protocol, header_fields, path_parameters: Vec::new() })
    }

    /// The line of `bytes` that starts at `pos`.
    pub fn line_from(bytes: &[u8], pos: usize) -> (line: Vec<u8>)
        requires
            pos <= bytes@.len(),
        ensures
            line@ == line_at(bytes@, pos as int),
    {
        let end = find_byte(bytes, 10, pos);
        if end < bytes.len() && end > pos && bytes[end - 1] == 13 {
            let line = copy_range(bytes, pos, end - 1);
            proof {
                assert(bytes@.subrange(pos as int, end as int).drop_last() =~= bytes@.subrange(
                    pos as int,
                    end - 1,
                ));
            }
            line
        } else {
            copy_range(bytes, pos, end)
        }
    }

    /// The header fields that the lines of `bytes` from `start` on give.
    fn parse_headers(bytes: &[u8], start: usize) -> (fields: Vec<(Header, Vec<u8>)>)
        requires
            start <= bytes@.len(),
        ensures
            fields@.len() == header_lines(bytes@, start as int).len(),
            forall|i: int|
                0 <= i < fields@.len() ==> (#[trigger] fields@[i]).0.stands_for(
                    header_lines(bytes@, start as int)[i].0,
                ) && fields@[i].1@ == header_lines(bytes@, start as int)[i].1,
    {
        let mut fields: Vec<(Header, Vec<u8>)> = Vec::new();
        let mut pos: usize = start;
        let ghost mut done: Seq<(Seq<u8>, Seq<u8>)> = Seq::empty();
        while pos < bytes.len()
            invariant
                pos <= bytes@.len(),
                done + header_lines(bytes@, pos as int) == header_lines(bytes@, start as int),
                fields@.len() == done.len(),
                forall|i: int|
                    0 <= i < fields@.len() ==> (#[trigger] fields@[i]).0.stands_for(done[i].0)
                        && fields@[i].1@ == done[i].1,
            decreases bytes@.len() - pos,
        {
            let end = find_byte(bytes, 10, pos);
            let line = Self::line_from(bytes, pos);
            let colon = find_byte(line.as_slice(), 58, 0);
            if colon >= line.len() {
                proof {
                    assert(done + Seq::<(Seq<u8>, Seq<u8>)>::empty() =~= done);
                }
                return fields;
            }
            let value_start = find_word(line.as_slice(), colon + 1);
            let name = copy_range(line.as_slice(), 0, colon);
            let value = copy_range(line.as_slice(), value_start, line.len());
            let header = Header::from_name(name.as_slice());
            proof {
                let pair = (name@, value@);
                let rest = header_lines(bytes@, end + 1);
                lemma_next_byte_bounds(bytes@, 10, pos as int);
                assert(line@.take(colon as int) =~= line@.subrange(0, colon as int));
                assert(line@.skip(value_start as int) =~= line@.subrange(
                    value_start as int,
                    line@.len() as int,
                ));
                assert(header_lines(bytes@, pos as int) =~= seq![pair] + rest);
                assert(done.push(pair) + rest =~= done + (seq![pair] + rest));
                done = done.push(pair);
            }
            fields.push((header, value));
            if end >= bytes.len() {
                return fields;
            }
            pos = end + 1;
        }
        proof {
            assert(done + Seq::<(Seq<u8>, Seq<u8>)>::empty() =~= done);
        }
        fields
    }

    /// The request head as text on the wire: the request line, one line for
    /// each header field, and two line feeds.
    pub open spec fn wire(self) -> Seq<u8> {
        encode_utf8(self.method.text()) + seq![32u8] + self.target@ + seq![32u8]
            + self.protocol.wire() + seq![10u8] + header_block(
            Seq::new(
                self.header_fields@.len(),
                |i: int| (self.header_fields@[i].0, self.header_fields@[i].1@),
            ),
        ) + seq![10u8, 10u8]
    }

    /// The bytes of the request head, for showing it.
    pub fn serialize(&self) -> (bytes: Vec<u8>)
        ensures
            bytes@ == self.wire(),
    {
        let ghost fields = Seq::new(
            self.header_fields@.len(),
            |i: int| (self.header_fields@[i].0, self.header_fields@[i].1@),
        );
        let mut out: Vec<u8> = Vec::new();
        append(&mut out, self.method.as_str().as_bytes());
        out.push(32u8);
        append(&mut out, self.target.as_slice());
        out.push(32u8);
        append(&mut out, self.protocol.as_str().as_bytes());
        out.push(10u8);
        let ghost line = out@;
        let mut i: usize = 0;
        while i < self.header_fields.len()
            invariant
                i <= self.header_fields@.len(),
                fields.len() == self.header_fields@.len(),
                forall|j: int|
                    0 <= j < fields.len() ==> fields[j] == (
                        self.header_fields@[j].0,
                        self.header_fields@[j].1@,
                    ),
                out@ == line + header_block(fields.take(i as int)),
            decreases self.header_fields@.len() - i,
        {
            append(&mut out, self.header_fields[i].0.as_str().as_bytes());
            out.push(58u8);
            out.push(32u8);
            append(&mut out, self.header_fields[i].1.as_slice());
            out.push(10u8);
            proof {
                let upto = fields.take(i + 1);
                assert(upto.drop_last() =~= fields.take(i as int));
                assert(upto.last() == fields[i as int]);
                assert(out@ =~= line + header_block(upto));
            }
            i += 1;
        }
        proof {
            assert(fields.take(i as int) =~= fields);
        }
        out.push(10u8);
        out.push(10u8);
        proof {
            assert(out@ =~= self.wire());
        }
        out
    }

    pub fn get_method(&self) -> (method: Method)
        ensures
            method == self.method,
    {
        self.method
    }

    pub fn get_target(&self) -> (target: &Vec<u8>)
        ensures
            target@ == self.target@,
    {
        &self.target
    }

    pub fn get_protocol(&self) -> (protocol: Protocol)
        ensures
            protocol == self.protocol,
    {
        self.protocol
    }

    /// The value of the header `header`; where several lines gave it one, the
    /// last of them.
    pub fn get_header(&self, header: &Header) -> (value: Option<&Vec<u8>>)
        ensures
            match value {
                Some(v) => self.header_value(*header, self.header_fields@.len() as int) == Some(v@),
                None => self.header_value(*header, self.header_fields@.len() as int).is_none(),
            },
    {
        let mut i: usize = self.header_fields.len();
        while i > 0
            invariant
                i <= self.header_fields@.len(),
                self.header_value(*header, self.header_fields@.len() as int) == self.header_value(
                    *header,
                    i as int,
                ),
            decreases i,
        {
            if self.header_fields[i - 1].0.is(header) {
                return Some(&self.header_fields[i - 1].1);
            }
            i -= 1;
        }
        None
    }

    /// The value bound to the path parameter `label`, if the router bound one;
    /// the last one, where it bound several.
    pub fn get_path_parameter(&self, label: &[u8]) -> (value: Option<&Vec<u8>>)
        ensures
            match value {
                Some(v) => last_value(self.parameters(), label@) == Some(v@),
                None => last_value(self.parameters(), label@).is_none(),
            },
    {
        let mut i: usize = self.path_parameters.len();
        proof {
            assert(self.parameters().subrange(0, i as int) =~= self.parameters());
        }
        while i > 0
            invariant
                i <= self.path_parameters@.len(),
                last_value(self.parameters(), label@) == last_value(
                    self.parameters().subrange(0, i as int),
                    label@,
                ),
            decreases i,
        {
            proof {
                let p = self.parameters().subrange(0, i as int);
                assert(p.drop_last() =~= self.parameters().subrange(0, i - 1));
                assert(p.last() == self.parameters()[i - 1]);
            }
            if same_bytes(self.path_parameters[i - 1].0.as_slice(), label) {
                return Some(&self.path_parameters[i - 1].1);
            }
            i -= 1;
        }
        None
    }

    /// Binds the path parameter `label` to `value`, after those bound before.
    pub fn bind_path_parameter(&mut self, label: Vec<u8>, value: Vec<u8>)
        ensures
            final(self).parameters() == old(self).parameters().push((label@, value@)),
            final(self).method == old(self).method,
            final(self).target == old(self).target,
            final(self).protocol == old(self).protocol,
            final(self).header_fields == old(self).header_fields,
    {
        self.path_parameters.push((label, value));
        proof {
            assert(self.parameters() =~= old(self).parameters().push((label@, value@)));
        }
    }
}

} // verus!
