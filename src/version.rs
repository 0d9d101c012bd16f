//! Protocol versions and their wire texts.
use vstd::prelude::*;
use vstd::utf8::*;
use crate::text::{decode_text, text_bytes, text_is};

verus! {

/// Why bytes could not be read as a protocol version.
#[derive(Copy, Clone, Debug, PartialEq, Eq, Structural)]
pub enum HTTPVersionParseError {
    /// The bytes are not well-formed UTF-8.
    UnknownChars,
    /// The text is none of the known versions.
    NotMatch,
}

/// A protocol version.
#[derive(Copy, Clone, Debug, PartialEq, Eq, Structural)]
pub enum HTTPVersion {
    HTTP1_0,
    HTTP1_1,
    HTTP2,
}

/// The wire text of a version.
pub open spec fn version_text(v: HTTPVersion) -> Seq<char> {
    match v {
        HTTPVersion::HTTP1_0 => seq!['H', 'T', 'T', 'P', '/', '1', '.', '0'],
        HTTPVersion::HTTP1_1 => seq!['H', 'T', 'T', 'P', '/', '1', '.', '1'],
        HTTPVersion::HTTP2 => seq!['H', 'T', 'T', 'P', '/', '2'],
    }
}

/// The version whose wire text is exactly `s`.
pub open spec fn version_of_text(s: Seq<char>) -> Option<HTTPVersion> {
    if s == version_text(HTTPVersion::HTTP1_0) {
        Some(HTTPVersion::HTTP1_0)
    } else if s == version_text(HTTPVersion::HTTP1_1) {
        Some(HTTPVersion::HTTP1_1)
    } else if s == version_text(HTTPVersion::HTTP2) {
        Some(HTTPVersion::HTTP2)
    } else {
        None
    }
}

/// Reading the wire text of a version gives that version back.
pub proof fn lemma_version_round_trip(v: HTTPVersion)
    ensures
        version_of_text(version_text(v)) == Some(v),
{
    let a = version_text(HTTPVersion::HTTP1_0);
    let b = version_text(HTTPVersion::HTTP1_1);
    let c = version_text(HTTPVersion::HTTP2);
    assert(a[7] != b[7]);
    assert(a.len() != c.len());
    assert(b.len() != c.len());
}

/// Reads a version from its wire text, exactly and case-sensitively.
pub fn version_from_text(s: &String) -> (r: Option<HTTPVersion>)
    ensures
        r == version_of_text(s@),
{
    proof {
        reveal_strlit("HTTP/1.0");
        reveal_strlit("HTTP/1.1");
        reveal_strlit("HTTP/2");
        assert("HTTP/1.0"@ =~= version_text(HTTPVersion::HTTP1_0));
        assert("HTTP/1.1"@ =~= version_text(HTTPVersion::HTTP1_1));
        assert("HTTP/2"@ =~= version_text(HTTPVersion::HTTP2));
    }
    if text_is(s, "HTTP/1.0") {
        Some(HTTPVersion::HTTP1_0)
    } else if text_is(s, "HTTP/1.1") {
        Some(HTTPVersion::HTTP1_1)
    } else if text_is(s, "HTTP/2") {
        Some(HTTPVersion::HTTP2)
    } else {
        None
    }
}

impl HTTPVersion {
    /// Reads a version from raw bytes: they must be UTF-8 and spell one version exactly.
    pub fn from_raw(raw: Vec<u8>) -> (r: Result<Self, HTTPVersionParseError>)
        ensures
            !valid_utf8(raw@) ==> r == Err::<Self, _>(HTTPVersionParseError::UnknownChars),
            valid_utf8(raw@) ==> r == match version_of_text(decode_utf8(raw@)) {
                Some(v) => Ok(v),
                None => Err(HTTPVersionParseError::NotMatch),
            },
    {
        match decode_text(raw) {
            Some(s) => match version_from_text(&s) {
                Some(v) => Ok(v),
                None => Err(HTTPVersionParseError::NotMatch),
            },
            None => Err(HTTPVersionParseError::UnknownChars),
        }
    }

    /// The wire text.
    pub fn to_string(&self) -> (r: String)
        ensures
            r@ == version_text(*self),
    {
        proof {
            reveal_strlit("HTTP/1.0");
            reveal_strlit("HTTP/1.1");
            reveal_strlit("HTTP/2");
        }
        let s = match self {
            HTTPVersion::HTTP1_0 => "HTTP/1.0",
            HTTPVersion::HTTP1_1 => "HTTP/1.1",
            HTTPVersion::HTTP2 => "HTTP/2",
        };
        let r = s.to_owned();
        assert(r@ =~= version_text(*self));
        r
    }

    /// The wire text as UTF-8 bytes.
    pub fn as_bytes(&self) -> (r: Vec<u8>)
        ensures
            r@ == encode_utf8(version_text(*self)),
    {
        text_bytes(self.to_string().as_str())
    }
}

impl From<HTTPVersion> for String {
    fn from(v: HTTPVersion) -> String {
        v.to_string()
    }
}

impl vstd::std_specs::convert::FromSpecImpl<HTTPVersion> for String {
    open spec fn obeys_from_spec() -> bool {
        false
    }

    open spec fn from_spec(v: HTTPVersion) -> String {
        choose|s: String| s@ == version_text(v)
    }
}

} // verus!
