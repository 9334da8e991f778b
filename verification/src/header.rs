//! Header names: the ones the server knows by heart, and all the others.

use vstd::prelude::*;
use vstd::string::StringSliceAdditionalSpecFns;
use vstd::utf8::encode_utf8;
use crate::bytes::{lower, lowered_is};

verus! {

#[derive(Debug)]
pub enum Header {
    ContentLength,
    ContentType,
    ContentEncoding,
    ContentLanguage,
    ContentLocation,
    From,
    Host,
    Referer,
    ReferrerPolicy,
    UserAgent,
    /// A name outside the known set, kept as it was written.
    Other(String),
}

/// The text that the standard library's lossy UTF-8 decoding gives for `bytes`:
/// the decoded text where `bytes` is well-formed UTF-8, and otherwise that text
/// with a replacement character for each ill-formed run.
pub uninterp spec fn lossy_text(bytes: Seq<u8>) -> Seq<char>;

/// Decodes `bytes` with `String::from_utf8_lossy`. The result is taken on
/// trust to be a function of the bytes alone, named `lossy_text`.
#[verifier::external_body]
pub(crate) fn text_of(bytes: &[u8]) -> (text: String)
    ensures
        text@ == lossy_text(bytes@),
{
    String::from_utf8_lossy(bytes).into_owned()
}

impl Header {
    /// The name as it is written in a header line.
    pub open spec fn text(self) -> Seq<char> {
        match self {
            Self::ContentLength => "Content-Length"@,
            Self::ContentType => "Content-Type"@,
            Self::ContentEncoding => "Content-Encoding"@,
            Self::ContentLanguage => "Content-Language"@,
            Self::ContentLocation => "Content-Location"@,
            Self::From => "From"@,
            Self::Host => "Host"@,
            Self::Referer => "Referer"@,
            Self::ReferrerPolicy => "Referrer-Policy"@,
            Self::UserAgent => "User-Agent"@,
            Self::Other(name) => name@,
        }
    }

    /// The known header that a lower-case name stands for, if any.
    pub open spec fn known(lowered: Seq<u8>) -> Option<Header> {
        if lowered == "content-length".spec_bytes() {
            Some(Self::ContentLength)
        } else if lowered == "content-type".spec_bytes() {
            Some(Self::ContentType)
        } else if lowered == "content-encoding".spec_bytes() {
            Some(Self::ContentEncoding)
        } else if lowered == "content-language".spec_bytes() {
            Some(Self::ContentLanguage)
        } else if lowered == "content-location".spec_bytes() {
            Some(Self::ContentLocation)
        } else if lowered == "from".spec_bytes() {
            Some(Self::From)
        } else if lowered == "host".spec_bytes() {
            Some(Self::Host)
        } else if lowered == "referer".spec_bytes() {
            Some(Self::Referer)
        } else if lowered == "referrer-policy".spec_bytes() {
            Some(Self::ReferrerPolicy)
        } else if lowered == "user-agent".spec_bytes() {
            Some(Self::UserAgent)
        } else {
            None
        }
    }

    /// Whether two headers are the same key: the same known header, or two
    /// other names with the same text.
    pub open spec fn same_as(self, other: Header) -> bool {
        match (self, other) {
            (Self::Other(a), Self::Other(b)) => a@ == b@,
            (Self::Other(_), _) => false,
            (_, Self::Other(_)) => false,
            _ => self == other,
        }
    }

    /// Whether this header is what the name `name` of a header line stands
    /// for: letter case is ignored for the known headers, and any other name
    /// is kept as its text.
    pub open spec fn stands_for(self, name: Seq<u8>) -> bool {
        match Self::known(lower(name)) {
            Some(h) => self == h,
            None => match self {
                Self::Other(text) => text@ == lossy_text(name),
                _ => false,
            },
        }
    }

    /// The header that the name of a header line stands for.
    pub fn from_name(name: &[u8]) -> (header: Header)
        ensures
            header.stands_for(name@),
    {
        if lowered_is(name, "content-length".as_bytes()) {
            Self::ContentLength
        } else if lowered_is(name, "content-type".as_bytes()) {
            Self::ContentType
        } else if lowered_is(name, "content-encoding".as_bytes()) {
            Self::ContentEncoding
        } else if lowered_is(name, "content-language".as_bytes()) {
            Self::ContentLanguage
        } else if lowered_is(name, "content-location".as_bytes()) {
            Self::ContentLocation
        } else if lowered_is(name, "from".as_bytes()) {
            Self::From
        } else if lowered_is(name, "host".as_bytes()) {
            Self::Host
        } else if lowered_is(name, "referer".as_bytes()) {
            Self::Referer
        } else if lowered_is(name, "referrer-policy".as_bytes()) {
            Self::ReferrerPolicy
        } else if lowered_is(name, "user-agent".as_bytes()) {
            Self::UserAgent
        } else {
            Self::Other(text_of(name))
        }
    }

    pub fn as_str(&self) -> (name: &str)
        ensures
            name@ == self.text(),
    {
        match self {
            Self::ContentLength => "Content-Length",
            Self::ContentType => "Content-Type",
            Self::ContentEncoding => "Content-Encoding",
            Self::ContentLanguage => "Content-Language",
            Self::ContentLocation => "Content-Location",
            Self::From => "From",
            Self::Host => "Host",
            Self::Referer => "Referer",
            Self::ReferrerPolicy => "Referrer-Policy",
            Self::UserAgent => "User-Agent",
            Self::Other(header) => header.as_str(),
        }
    }

    /// Whether `self` and `other` are the same key.
    pub fn is(&self, other: &Header) -> (same: bool)
        ensures
            same == self.same_as(*other),
    {
        match (self, other) {
            (Self::Other(a), Self::Other(b)) => *a == *b,
            (Self::ContentLength, Self::ContentLength) => true,
            (Self::ContentType, Self::ContentType) => true,
            (Self::ContentEncoding, Self::ContentEncoding) => true,
            (Self::ContentLanguage, Self::ContentLanguage) => true,
            (Self::ContentLocation, Self::ContentLocation) => true,
            (Self::From, Self::From) => true,
            (Self::Host, Self::Host) => true,
            (Self::Referer, Self::Referer) => true,
            (Self::ReferrerPolicy, Self::ReferrerPolicy) => true,
            (Self::UserAgent, Self::UserAgent) => true,
            _ => false,
        }
    }
}

impl Clone for Header {
    fn clone(&self) -> (copy: Self)
        ensures
            copy == *self,
    {
        match self {
            Self::ContentLength => Self::ContentLength,
            Self::ContentType => Self::ContentType,
            Self::ContentEncoding => Self::ContentEncoding,
            Self::ContentLanguage => Self::ContentLanguage,
            Self::ContentLocation => Self::ContentLocation,
            Self::From => Self::From,
            Self::Host => Self::Host,
            Self::Referer => Self::Referer,
            Self::ReferrerPolicy => Self::ReferrerPolicy,
            Self::UserAgent => Self::UserAgent,
            Self::Other(header) => Self::Other(header.clone()),
        }
    }
}

/// The header lines of a message on the wire: for each field its name, a
/// colon and a space, its value and a line feed.
pub open spec fn header_block(headers: Seq<(Header, Seq<u8>)>) -> Seq<u8>
    decreases headers.len(),
{
    if headers.len() == 0 {
        Seq::empty()
    } else {
        header_block(headers.drop_last()) + encode_utf8(headers.last().0.text()) + seq![58u8, 32u8]
            + headers.last().1 + seq![10u8]
    }
}

} // verus!
