//! The protocol token of a request line and of a status line.

use vstd::prelude::*;
use vstd::string::StringSliceAdditionalSpecFns;
use crate::bytes::same_bytes;

verus! {

#[derive(Clone, Copy, Debug, PartialEq, Eq, Structural)]
pub enum Protocol {
    Http1_1,
    Http1_0,
    Http0_9,
    /// The request line named no protocol.
    Missing,
}

/// The bytes of a token that may be absent.
pub open spec fn token_view(token: Option<&[u8]>) -> Option<Seq<u8>> {
    match token {
        Some(t) => Some(t@),
        None => None,
    }
}

impl Protocol {
    /// The token as text.
    pub open spec fn text(self) -> Seq<char> {
        match self {
            Self::Http1_1 => "HTTP/1.1"@,
            Self::Http1_0 => "HTTP/1.0"@,
            Self::Http0_9 => "HTTP/0.9"@,
            Self::Missing => ""@,
        }
    }

    /// The token as it stands on the wire.
    pub open spec fn wire(self) -> Seq<u8> {
        match self {
            Self::Http1_1 => "HTTP/1.1".spec_bytes(),
            Self::Http1_0 => "HTTP/1.0".spec_bytes(),
            Self::Http0_9 => "HTTP/0.9".spec_bytes(),
            Self::Missing => "".spec_bytes(),
        }
    }

    /// What a token of the wire stands for: an absent token for `Missing`, one
    /// of the three known tokens for its protocol, and anything else for nothing.
    pub open spec fn of_wire(token: Option<Seq<u8>>) -> Option<Protocol> {
        match token {
            None => Some(Self::Missing),
            Some(t) => if t == Self::Http1_1.wire() {
                Some(Self::Http1_1)
            } else if t == Self::Http1_0.wire() {
                Some(Self::Http1_0)
            } else if t == Self::Http0_9.wire() {
                Some(Self::Http0_9)
            } else {
                None
            },
        }
    }

    pub fn as_str(&self) -> (token: &'static str)
        ensures
            token@ == self.text(),
            token.spec_bytes() == self.wire(),
    {
        match self {
            Self::Http1_1 => "HTTP/1.1",
            Self::Http1_0 => "HTTP/1.0",
            Self::Http0_9 => "HTTP/0.9",
            Self::Missing => "",
        }
    }

    /// Reads the protocol token of a request line. An unknown token comes back
    /// as the error.
    pub fn parse(token: Option<&[u8]>) -> (result: Result<Protocol, Vec<u8>>)
        ensures
            match result {
                Ok(p) => Self::of_wire(token_view(token)) == Some(p),
                Err(t) => Self::of_wire(token_view(token)).is_none() && token.is_some()
                    && t@ == token.unwrap()@,
            },
    {
        match token {
            None => Ok(Self::Missing),
            Some(t) => {
                if same_bytes(t, "HTTP/1.1".as_bytes()) {
                    Ok(Self::Http1_1)
                } else if same_bytes(t, "HTTP/1.0".as_bytes()) {
                    Ok(Self::Http1_0)
                } else if same_bytes(t, "HTTP/0.9".as_bytes()) {
                    Ok(Self::Http0_9)
                } else {
                    Err(crate::bytes::copy_range(t, 0, t.len()))
                }
            },
        }
    }
}

} // verus!
