//! Requests: the message with a method and a target, how to write one out, how to read one
//! from bytes, and a builder.
use vstd::prelude::*;
use vstd::utf8::*;
use crate::codec::{
    HTTPParseError, RequestParts, parse_request, parse_request_bytes, push_header_block,
    request_head, with_slash,
};
use crate::map::HTTPHeadMap;
use crate::method::HTTPClientMethod;
use crate::response::{HTTPBytes, HTTPResponse, ResponseBuilder};
use crate::text::{chars_of, lossy_text, lossy_text_of, push_char, push_text, text_bytes};
use crate::version::HTTPVersion;

verus! {

/// A request: a message with its method and target.
#[derive(Clone, Debug)]
pub struct HTTPClientResponse {
    response: HTTPResponse,
    method: HTTPClientMethod,
    resource: String,
}

/// Appends the request target, with a leading slash where it lacks one.
fn push_target(s: &mut String, resource: &String)
    ensures
        final(s)@ == old(s)@ + with_slash(resource@),
{
    let c = chars_of(resource.as_str());
    if !(c.len() > 0 && c[0] == '/') {
        push_char(s, '/');
    }
    push_text(s, resource.as_str());
    assert(final(s)@ =~= old(s)@ + with_slash(resource@));
}

impl HTTPClientResponse {
    pub closed spec fn spec_response(&self) -> HTTPResponse {
        self.response
    }

    pub closed spec fn spec_method(&self) -> HTTPClientMethod {
        self.method
    }

    pub closed spec fn spec_resource(&self) -> String {
        self.resource
    }

    /// What the request holds, as values.
    pub open spec fn parts(&self) -> RequestParts {
        RequestParts {
            method: self.spec_method(),
            resource: self.spec_resource()@,
            version: self.spec_response().spec_version(),
            header: self.spec_response().spec_header()@,
            body: self.spec_response().spec_body()@,
        }
    }

    /// Everything before the body when the request is written out.
    pub open spec fn head_text(&self) -> Seq<char> {
        request_head(
            self.spec_method(),
            self.spec_resource()@,
            self.spec_response().spec_version(),
            self.spec_response().spec_header()@,
        )
    }

    pub fn new(response: HTTPResponse, method: HTTPClientMethod, resource: String) -> (r: Self)
        ensures
            r.spec_response() == response,
            r.spec_method() == method,
            r.spec_resource() == resource,
    {
        HTTPClientResponse { response, method, resource }
    }

    pub fn resource(&self) -> (r: String)
        ensures
            r == self.spec_resource(),
    {
        self.resource.clone()
    }

    pub fn method(&self) -> (r: HTTPClientMethod)
        ensures
            r == self.spec_method(),
    {
        self.method
    }

    pub fn http_version(&self) -> (r: HTTPVersion)
        ensures
            r == self.spec_response().spec_version(),
    {
        self.response.version()
    }

    pub fn header(&self) -> (r: &HTTPHeadMap)
        ensures
            *r == self.spec_response().spec_header(),
    {
        self.response.header()
    }

    pub fn header_mut(&mut self) -> (r: &mut HTTPHeadMap)
        ensures
            *r == old(self).spec_response().spec_header(),
            final(self).spec_response().spec_header() == *final(r),
            final(self).spec_response().spec_version() == old(self).spec_response().spec_version(),
            final(self).spec_response().spec_body() == old(self).spec_response().spec_body(),
            final(self).spec_method() == old(self).spec_method(),
            final(self).spec_resource() == old(self).spec_resource(),
    {
        self.response.header_mut()
    }

    pub fn header_clone(&self) -> (r: HTTPHeadMap)
        ensures
            r@ == self.spec_response().spec_header()@,
            r.cursor() == self.spec_response().spec_header().cursor(),
    {
        self.response.header().duplicate()
    }

    pub fn body_clone(&self) -> (r: Vec<u8>)
        ensures
            r@ == self.spec_response().spec_body()@,
    {
        vstd::slice::slice_to_vec(self.response.body().as_slice())
    }

    pub fn body(&self) -> (r: &Vec<u8>)
        ensures
            *r == self.spec_response().spec_body(),
    {
        self.response.body()
    }

    pub fn body_mut(&mut self) -> (r: &mut Vec<u8>)
        ensures
            *r == old(self).spec_response().spec_body(),
            final(self).spec_response().spec_body() == *final(r),
            final(self).spec_response().spec_version() == old(self).spec_response().spec_version(),
            final(self).spec_response().spec_header() == old(self).spec_response().spec_header(),
            final(self).spec_method() == old(self).spec_method(),
            final(self).spec_resource() == old(self).spec_resource(),
    {
        self.response.body_mut()
    }

    fn head_string(&self) -> (r: String)
        ensures
            r@ == self.head_text(),
    {
        let mut s = self.method.to_string();
        push_char(&mut s, ' ');
        push_target(&mut s, &self.resource);
        push_char(&mut s, ' ');
        push_text(&mut s, self.response.version().to_string().as_str());
        push_char(&mut s, '\r');
        push_char(&mut s, '\n');
        push_header_block(&mut s, self.response.header());
        push_char(&mut s, '\r');
        push_char(&mut s, '\n');
        assert(s@ =~= self.head_text());
        s
    }

    /// The request as text; a body that is not UTF-8 has its ill-formed sequences replaced.
    pub fn http(self) -> (r: String)
        ensures
            r@ == self.head_text() + lossy_text_of(self.spec_response().spec_body()@),
            valid_utf8(self.spec_response().spec_body()@) ==> r@ == self.head_text() + decode_utf8(
                self.spec_response().spec_body()@,
            ),
    {
        let mut s = self.head_string();
        push_text(&mut s, lossy_text(self.response.body().as_slice()).as_str());
        s
    }

    /// The request as bytes: the text before the body, then the body unchanged.
    pub fn http_bytes(self) -> (r: Vec<u8>)
        ensures
            r@ == encode_utf8(self.head_text()) + self.spec_response().spec_body()@,
    {
        let mut bytes = text_bytes(self.head_string().as_str());
        let mut body = vstd::slice::slice_to_vec(self.response.body().as_slice());
        bytes.append(&mut body);
        bytes
    }
}

/// Reads requests from the bytes it holds.
#[derive(Clone, Debug)]
pub struct HTTPClientResponseFormatter {
    cache: Vec<u8>,
}

impl HTTPClientResponseFormatter {
    pub closed spec fn spec_cache(&self) -> Seq<u8> {
        self.cache@
    }

    /// A formatter holding no bytes.
    pub fn init() -> (r: Self)
        ensures
            r.spec_cache().len() == 0,
    {
        HTTPClientResponseFormatter { cache: Vec::new() }
    }

    pub fn new_from<T: HTTPBytes>(cache: T) -> (r: Self)
        ensures
            r.spec_cache() == cache.bytes_view(),
    {
        HTTPClientResponseFormatter { cache: cache.vec_u8() }
    }

    pub fn cache<T: HTTPBytes>(self, cache: T) -> (r: Self)
        ensures
            r.spec_cache() == cache.bytes_view(),
    {
        let mut this = self;
        this.cache = cache.vec_u8();
        this
    }

    /// Reads the bytes as a request, saying why where they are none.
    pub fn try_build(self) -> (r: Result<HTTPClientResponse, HTTPParseError>)
        ensures
            match parse_request_bytes(self.spec_cache()) {
                Ok(p) => r matches Ok(w) && w.parts() == p && w.spec_response().spec_header().cursor() is None,
                Err(e) => r == Err::<HTTPClientResponse, _>(e),
            },
    {
        parse_request(self.cache)
    }

    /// Reads the bytes as a request.
    pub fn build(self) -> (r: Option<HTTPClientResponse>)
        ensures
            match parse_request_bytes(self.spec_cache()) {
                Ok(p) => r matches Some(w) && w.parts() == p && w.spec_response().spec_header().cursor() is None,
                Err(_) => r is None,
            },
    {
        match self.try_build() {
            Ok(w) => Some(w),
            Err(_) => None,
        }
    }
}

/// Assembles a request; what is not set takes its default when it is built.
#[derive(Clone, Debug)]
pub struct HTTPClientResponseBuilder {
    response: Option<HTTPResponse>,
    method: Option<HTTPClientMethod>,
    resource: Option<String>,
}

impl HTTPClientResponseBuilder {
    pub closed spec fn spec_response(&self) -> Option<HTTPResponse> {
        self.response
    }

    pub closed spec fn spec_method(&self) -> Option<HTTPClientMethod> {
        self.method
    }

    pub closed spec fn spec_resource(&self) -> Option<String> {
        self.resource
    }

    /// A builder with nothing set.
    pub fn new() -> (r: Self)
        ensures
            r.spec_response() is None,
            r.spec_method() is None,
            r.spec_resource() is None,
    {
        HTTPClientResponseBuilder { response: None, method: None, resource: None }
    }

    pub fn response(self, response: HTTPResponse) -> (r: Self)
        ensures
            r.spec_response() == Some(response),
            r.spec_method() == self.spec_method(),
            r.spec_resource() == self.spec_resource(),
    {
        let mut this = self;
        this.response = Some(response);
        this
    }

    pub fn method(self, method: HTTPClientMethod) -> (r: Self)
        ensures
            r.spec_response() == self.spec_response(),
            r.spec_method() == Some(method),
            r.spec_resource() == self.spec_resource(),
    {
        let mut this = self;
        this.method = Some(method);
        this
    }

    /// Sets the target to the text of `resource`.
    pub fn resource<T: HTTPBytes>(self, resource: T) -> (r: Self)
        ensures
            r.spec_response() == self.spec_response(),
            r.spec_method() == self.spec_method(),
            r.spec_resource() matches Some(s) && s@ == resource.text_view(),
    {
        let mut this = self;
        this.resource = Some(resource.string());
        this
    }

    /// The request, with an empty HTTP/1.1 message, method GET and target "/" where they were
    /// not set.
    pub fn build(self) -> (r: HTTPClientResponse)
        ensures
            match self.spec_response() {
                Some(m) => r.spec_response() == m,
                None => {
                    &&& r.spec_response().spec_version() == HTTPVersion::HTTP1_1
                    &&& r.spec_response().spec_header()@.len() == 0
                    &&& r.spec_response().spec_header().cursor() is None
                    &&& r.spec_response().spec_body()@.len() == 0
                },
            },
            r.spec_method() == match self.spec_method() {
                Some(m) => m,
                None => HTTPClientMethod::GET,
            },
            match self.spec_resource() {
                Some(s) => r.spec_resource() == s,
                None => r.spec_resource()@ == seq!['/'],
            },
    {
        let response = match self.response {
            Some(m) => m,
            None => ResponseBuilder::builder().build(),
        };
        let method = match self.method {
            Some(m) => m,
            None => HTTPClientMethod::GET,
        };
        let resource = match self.resource {
            Some(s) => s,
            None => {
                let mut s = String::new();
                push_char(&mut s, '/');
                s
            },
        };
        HTTPClientResponse::new(response, method, resource)
    }
}

} // verus!
