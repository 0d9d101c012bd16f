//! Responses: the message with a status, how to write one out, and a builder.
use vstd::prelude::*;
use vstd::utf8::*;
use crate::codec::{push_header_block, response_head};
use crate::method::HTTPServerMethod;
use crate::response::{HTTPResponse, ResponseBuilder};
use crate::text::{lossy_text, lossy_text_of, push_char, push_text, text_bytes};
use crate::version::HTTPVersion;

verus! {

/// A response: a message with its status.
#[derive(Clone, Debug)]
pub struct HTTPServerResponse {
    response: HTTPResponse,
    method: HTTPServerMethod,
}

/// Assembles a response; what is not set takes its default when it is built.
#[derive(Clone, Debug)]
pub struct HTTPServerResponseBuilder {
    response: Option<HTTPResponse>,
    method: Option<HTTPServerMethod>,
}

impl HTTPServerResponseBuilder {
    pub closed spec fn spec_response(&self) -> Option<HTTPResponse> {
        self.response
    }

    pub closed spec fn spec_method(&self) -> Option<HTTPServerMethod> {
        self.method
    }

    /// A response from a message and a status.
    pub fn new(response: HTTPResponse, method: HTTPServerMethod) -> (r: HTTPServerResponse)
        ensures
            r.spec_response() == response,
            r.spec_method() == method,
    {
        HTTPServerResponse::new(response, method)
    }

    /// A builder with nothing set.
    pub fn builder() -> (r: Self)
        ensures
            r.spec_response() is None,
            r.spec_method() is None,
    {
        HTTPServerResponseBuilder { response: None, method: None }
    }

    pub fn response(self, response: HTTPResponse) -> (r: Self)
        ensures
            r.spec_response() == Some(response),
            r.spec_method() == self.spec_method(),
    {
        let mut this = self;
        this.response = Some(response);
        this
    }

    pub fn method(self, method: HTTPServerMethod) -> (r: Self)
        ensures
            r.spec_response() == self.spec_response(),
            r.spec_method() == Some(method),
    {
        let mut this = self;
        this.method = Some(method);
        this
    }

    /// The response, with an empty HTTP/1.1 message and status 200 OK where they were not set.
    pub fn build(self) -> (r: HTTPServerResponse)
        ensures
            match self.spec_response() {
                Some(m) => r.spec_response() == m,
                None => {
                    &&& r.spec_response().spec_version() == HTTPVersion::HTTP1_1
                    &&& r.spec_response().spec_header()@.len() == 0
                    &&& r.spec_response().spec_header().cursor() is None
                    &&& r.spec_response().spec_body()@.len() == 0
                },
            },
            r.spec_method() == match self.spec_method() {
                Some(m) => m,
                None => HTTPServerMethod::OK,
            },
    {
        let response = match self.response {
            Some(m) => m,
            None => ResponseBuilder::builder().build(),
        };
        let method = match self.method {
            Some(m) => m,
            None => HTTPServerMethod::OK,
        };
        HTTPServerResponse::new(response, method)
    }
}

impl HTTPServerResponse {
    pub closed spec fn spec_response(&self) -> HTTPResponse {
        self.response
    }

    pub closed spec fn spec_method(&self) -> HTTPServerMethod {
        self.method
    }

    /// Everything before the body when the response is written out.
    pub open spec fn head_text(&self) -> Seq<char> {
        response_head(
            self.spec_method(),
            self.spec_response().spec_version(),
            self.spec_response().spec_header()@,
        )
    }

    pub fn new(response: HTTPResponse, method: HTTPServerMethod) -> (r: Self)
        ensures
            r.spec_response() == response,
            r.spec_method() == method,
    {
        HTTPServerResponse { response, method }
    }

    fn head_string(&self) -> (r: String)
        ensures
            r@ == self.head_text(),
    {
        let mut s = self.response.version().to_string();
        push_char(&mut s, ' ');
        push_text(&mut s, self.method.to_string().as_str());
        push_char(&mut s, '\r');
        push_char(&mut s, '\n');
        push_header_block(&mut s, self.response.header());
        push_char(&mut s, '\r');
        push_char(&mut s, '\n');
        assert(s@ =~= self.head_text());
        s
    }

    /// The response as text; a body that is not UTF-8 has its ill-formed sequences replaced.
    pub fn http(self) -> (r: String)
        ensures
            r@ == self.head_text() + lossy_text_of(self.spec_response().spec_body()@),
            valid_utf8(self.spec_response().spec_body()@) ==> r@ == self.head_text() + decode_utf8(
                self.spec_response().spec_body()@,
            ),
    {
        let mut s = self.head_string();
        push_text(&mut s, lossy_text(self.response.body().as_slice()).as_str());
        s
    }

    /// The response as bytes: the text before the body, then the body unchanged.
    pub fn http_bytes(self) -> (r: Vec<u8>)
        ensures
            r@ == encode_utf8(self.head_text()) + self.spec_response().spec_body()@,
    {
        let mut bytes = text_bytes(self.head_string().as_str());
        let mut body = vstd::slice::slice_to_vec(self.response.body().as_slice());
        bytes.append(&mut body);
        bytes
    }
}

} // verus!
