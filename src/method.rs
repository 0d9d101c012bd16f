//! Request methods and response statuses, and their wire texts.
use vstd::prelude::*;
use vstd::utf8::*;
use crate::response::HTTPBytes;
use crate::text::{decimal, push_char, push_decimal, push_text, text_bytes, text_is};

verus! {

/// The text matches no known method or status.
#[derive(Copy, Clone, Debug, PartialEq, Eq, Structural)]
pub enum HTTPMethodMatchError {
    NoMatch,
}

/// A request method.
#[derive(Copy, Clone, Debug, PartialEq, Eq, Structural)]
pub enum HTTPClientMethod {
    GET,
    POST,
    PUT,
    DELETE,
    HEAD,
    OPTIONS,
    TRACE,
}

/// The wire text of a request method.
pub open spec fn client_method_text(m: HTTPClientMethod) -> Seq<char> {
    match m {
        HTTPClientMethod::GET => seq!['G', 'E', 'T'],
        HTTPClientMethod::POST => seq!['P', 'O', 'S', 'T'],
        HTTPClientMethod::PUT => seq!['P', 'U', 'T'],
        HTTPClientMethod::DELETE => seq!['D', 'E', 'L', 'E', 'T', 'E'],
        HTTPClientMethod::HEAD => seq!['H', 'E', 'A', 'D'],
        HTTPClientMethod::OPTIONS => seq!['O', 'P', 'T', 'I', 'O', 'N', 'S'],
        HTTPClientMethod::TRACE => seq!['T', 'R', 'A', 'C', 'E'],
    }
}

/// The request method whose wire text is exactly `s`.
pub open spec fn client_method_of_text(s: Seq<char>) -> Option<HTTPClientMethod> {
    if s == client_method_text(HTTPClientMethod::GET) {
        Some(HTTPClientMethod::GET)
    } else if s == client_method_text(HTTPClientMethod::POST) {
        Some(HTTPClientMethod::POST)
    } else if s == client_method_text(HTTPClientMethod::PUT) {
        Some(HTTPClientMethod::PUT)
    } else if s == client_method_text(HTTPClientMethod::DELETE) {
        Some(HTTPClientMethod::DELETE)
    } else if s == client_method_text(HTTPClientMethod::HEAD) {
        Some(HTTPClientMethod::HEAD)
    } else if s == client_method_text(HTTPClientMethod::OPTIONS) {
        Some(HTTPClientMethod::OPTIONS)
    } else if s == client_method_text(HTTPClientMethod::TRACE) {
        Some(HTTPClientMethod::TRACE)
    } else {
        None
    }
}

/// Reading the wire text of a request method gives that method back.
pub proof fn lemma_client_method_round_trip(m: HTTPClientMethod)
    ensures
        client_method_of_text(client_method_text(m)) == Some(m),
{
    let get = client_method_text(HTTPClientMethod::GET);
    let put = client_method_text(HTTPClientMethod::PUT);
    let post = client_method_text(HTTPClientMethod::POST);
    let head = client_method_text(HTTPClientMethod::HEAD);
    assert(get[0] != put[0]);
    assert(post[0] != head[0]);
}

/// Reads a request method from its wire text, exactly and case-sensitively.
pub fn client_method_from_text(s: &String) -> (r: Option<HTTPClientMethod>)
    ensures
        r == client_method_of_text(s@),
{
    proof {
        reveal_strlit("GET");
        reveal_strlit("POST");
        reveal_strlit("PUT");
        reveal_strlit("DELETE");
        reveal_strlit("HEAD");
        reveal_strlit("OPTIONS");
        reveal_strlit("TRACE");
        assert("GET"@ =~= client_method_text(HTTPClientMethod::GET));
        assert("POST"@ =~= client_method_text(HTTPClientMethod::POST));
        assert("PUT"@ =~= client_method_text(HTTPClientMethod::PUT));
        assert("DELETE"@ =~= client_method_text(HTTPClientMethod::DELETE));
        assert("HEAD"@ =~= client_method_text(HTTPClientMethod::HEAD));
        assert("OPTIONS"@ =~= client_method_text(HTTPClientMethod::OPTIONS));
        assert("TRACE"@ =~= client_method_text(HTTPClientMethod::TRACE));
    }
    if text_is(s, "GET") {
        Some(HTTPClientMethod::GET)
    } else if text_is(s, "POST") {
        Some(HTTPClientMethod::POST)
    } else if text_is(s, "PUT") {
        Some(HTTPClientMethod::PUT)
    } else if text_is(s, "DELETE") {
        Some(HTTPClientMethod::DELETE)
    } else if text_is(s, "HEAD") {
        Some(HTTPClientMethod::HEAD)
    } else if text_is(s, "OPTIONS") {
        Some(HTTPClientMethod::OPTIONS)
    } else if text_is(s, "TRACE") {
        Some(HTTPClientMethod::TRACE)
    } else {
        None
    }
}

impl HTTPClientMethod {
    /// Reads a request method from the text of `t`.
    pub fn from<T: HTTPBytes>(t: T) -> (r: Result<Self, HTTPMethodMatchError>)
        ensures
            r == match client_method_of_text(t.text_view()) {
                Some(m) => Ok(m),
                None => Err(HTTPMethodMatchError::NoMatch),
            },
    {
        match client_method_from_text(&t.string()) {
            Some(m) => Ok(m),
            None => Err(HTTPMethodMatchError::NoMatch),
        }
    }

    /// The wire text.
    pub fn to_string(&self) -> (r: String)
        ensures
            r@ == client_method_text(*self),
    {
        proof {
            reveal_strlit("GET");
            reveal_strlit("POST");
            reveal_strlit("PUT");
            reveal_strlit("DELETE");
            reveal_strlit("HEAD");
            reveal_strlit("OPTIONS");
            reveal_strlit("TRACE");
        }
        let s = match self {
            HTTPClientMethod::GET => "GET",
            HTTPClientMethod::POST => "POST",
            HTTPClientMethod::PUT => "PUT",
            HTTPClientMethod::DELETE => "DELETE",
            HTTPClientMethod::HEAD => "HEAD",
            HTTPClientMethod::OPTIONS => "OPTIONS",
            HTTPClientMethod::TRACE => "TRACE",
        };
        let r = s.to_owned();
        assert(r@ =~= client_method_text(*self));
        r
    }
}

pub type ServerMethodString = String;

pub type ServerMethodCode = u32;

/// A response status: a well-known one, or any code with a reason phrase.
#[derive(Clone, Debug)]
pub enum HTTPServerMethod {
    OK,
    Created,
    Accepted,
    BadRequest,
    Unauthorized,
    Forbidden,
    NotFound,
    InternalServerError,
    Other(ServerMethodCode, ServerMethodString),
}

/// The wire text of a status: code, a space, and the reason phrase.
pub open spec fn status_text(m: HTTPServerMethod) -> Seq<char> {
    match m {
        HTTPServerMethod::OK => "200 OK"@,
        HTTPServerMethod::Created => "201 Created"@,
        HTTPServerMethod::Accepted => "202 Accepted"@,
        HTTPServerMethod::BadRequest => "400 Bad Request"@,
        HTTPServerMethod::Unauthorized => "401 Unauthorized"@,
        HTTPServerMethod::Forbidden => "403 Forbidden"@,
        HTTPServerMethod::NotFound => "404 Not Found"@,
        HTTPServerMethod::InternalServerError => "500 Internal Server Error"@,
        HTTPServerMethod::Other(code, reason) => decimal(code as nat) + seq![' '] + reason@,
    }
}

/// The well-known status whose wire text is exactly `s`; an `Other` status is never read.
pub open spec fn status_of_text(s: Seq<char>) -> Option<HTTPServerMethod> {
    if s == status_text(HTTPServerMethod::OK) {
        Some(HTTPServerMethod::OK)
    } else if s == status_text(HTTPServerMethod::Created) {
        Some(HTTPServerMethod::Created)
    } else if s == status_text(HTTPServerMethod::Accepted) {
        Some(HTTPServerMethod::Accepted)
    } else if s == status_text(HTTPServerMethod::BadRequest) {
        Some(HTTPServerMethod::BadRequest)
    } else if s == status_text(HTTPServerMethod::Unauthorized) {
        Some(HTTPServerMethod::Unauthorized)
    } else if s == status_text(HTTPServerMethod::Forbidden) {
        Some(HTTPServerMethod::Forbidden)
    } else if s == status_text(HTTPServerMethod::NotFound) {
        Some(HTTPServerMethod::NotFound)
    } else if s == status_text(HTTPServerMethod::InternalServerError) {
        Some(HTTPServerMethod::InternalServerError)
    } else {
        None
    }
}

/// Reading the wire text of a well-known status gives that status back.
pub proof fn lemma_status_round_trip(m: HTTPServerMethod)
    requires
        !(m is Other),
    ensures
        status_of_text(status_text(m)) == Some(m),
{
    reveal_strlit("200 OK");
    reveal_strlit("201 Created");
    reveal_strlit("202 Accepted");
    reveal_strlit("400 Bad Request");
    reveal_strlit("401 Unauthorized");
    reveal_strlit("403 Forbidden");
    reveal_strlit("404 Not Found");
    reveal_strlit("500 Internal Server Error");
    assert(status_text(HTTPServerMethod::OK).len() == 6);
    assert(status_text(HTTPServerMethod::Created).len() == 11);
    assert(status_text(HTTPServerMethod::Accepted).len() == 12);
    assert(status_text(HTTPServerMethod::BadRequest).len() == 15);
    assert(status_text(HTTPServerMethod::Unauthorized).len() == 16);
    assert(status_text(HTTPServerMethod::Forbidden).len() == 13);
    assert(status_text(HTTPServerMethod::NotFound).len() == 13);
    assert(status_text(HTTPServerMethod::InternalServerError).len() == 25);
    assert(status_text(HTTPServerMethod::Forbidden)[2] != status_text(HTTPServerMethod::NotFound)[2]);
}

/// Reads a well-known status from its wire text, exactly and case-sensitively.
pub fn status_from_text(s: &String) -> (r: Option<HTTPServerMethod>)
    ensures
        r == status_of_text(s@),
{
    if text_is(s, "200 OK") {
        Some(HTTPServerMethod::OK)
    } else if text_is(s, "201 Created") {
        Some(HTTPServerMethod::Created)
    } else if text_is(s, "202 Accepted") {
        Some(HTTPServerMethod::Accepted)
    } else if text_is(s, "400 Bad Request") {
        Some(HTTPServerMethod::BadRequest)
    } else if text_is(s, "401 Unauthorized") {
        Some(HTTPServerMethod::Unauthorized)
    } else if text_is(s, "403 Forbidden") {
        Some(HTTPServerMethod::Forbidden)
    } else if text_is(s, "404 Not Found") {
        Some(HTTPServerMethod::NotFound)
    } else if text_is(s, "500 Internal Server Error") {
        Some(HTTPServerMethod::InternalServerError)
    } else {
        None
    }
}

impl HTTPServerMethod {
    /// Reads a well-known status from the text of `t`.
    pub fn from<T: HTTPBytes>(t: T) -> (r: Result<Self, HTTPMethodMatchError>)
        ensures
            r == match status_of_text(t.text_view()) {
                Some(m) => Ok(m),
                None => Err(HTTPMethodMatchError::NoMatch),
            },
    {
        match status_from_text(&t.string()) {
            Some(m) => Ok(m),
            None => Err(HTTPMethodMatchError::NoMatch),
        }
    }

    /// The wire text.
    pub fn to_string(&self) -> (r: String)
        ensures
            r@ == status_text(*self),
    {
        match self {
            HTTPServerMethod::Other(code, reason) => {
                let mut r = String::new();
                push_decimal(&mut r, *code);
                push_char(&mut r, ' ');
                push_text(&mut r, reason.as_str());
                assert(r@ =~= status_text(*self));
                r
            },
            HTTPServerMethod::OK => "200 OK".to_owned(),
            HTTPServerMethod::Created => "201 Created".to_owned(),
            HTTPServerMethod::Accepted => "202 Accepted".to_owned(),
            HTTPServerMethod::BadRequest => "400 Bad Request".to_owned(),
            HTTPServerMethod::Unauthorized => "401 Unauthorized".to_owned(),
            HTTPServerMethod::Forbidden => "403 Forbidden".to_owned(),
            HTTPServerMethod::NotFound => "404 Not Found".to_owned(),
            HTTPServerMethod::InternalServerError => "500 Internal Server Error".to_owned(),
        }
    }
}

/// A method or status that can be written out as bytes.
pub trait HTTPMethodMessage {
    /// The wire text.
    spec fn wire_text(&self) -> Seq<char>;

    fn as_bytes(&self) -> (r: Vec<u8>)
        ensures
            r@ == encode_utf8(self.wire_text()),
    ;
}

impl HTTPMethodMessage for HTTPClientMethod {
    open spec fn wire_text(&self) -> Seq<char> {
        client_method_text(*self)
    }

    fn as_bytes(&self) -> (r: Vec<u8>) {
        text_bytes(self.to_string().as_str())
    }
}

impl HTTPMethodMessage for HTTPServerMethod {
    open spec fn wire_text(&self) -> Seq<char> {
        status_text(*self)
    }

    fn as_bytes(&self) -> (r: Vec<u8>) {
        text_bytes(self.to_string().as_str())
    }
}

impl From<HTTPClientMethod> for String {
    fn from(m: HTTPClientMethod) -> String {
        m.to_string()
    }
}

impl vstd::std_specs::convert::FromSpecImpl<HTTPClientMethod> for String {
    open spec fn obeys_from_spec() -> bool {
        false
    }

    open spec fn from_spec(m: HTTPClientMethod) -> String {
        choose|s: String| s@ == client_method_text(m)
    }
}

impl From<HTTPServerMethod> for String {
    fn from(m: HTTPServerMethod) -> String {
        m.to_string()
    }
}

impl vstd::std_specs::convert::FromSpecImpl<HTTPServerMethod> for String {
    open spec fn obeys_from_spec() -> bool {
        false
    }

    open spec fn from_spec(m: HTTPServerMethod) -> String {
        choose|s: String| s@ == status_text(m)
    }
}

} // verus!
