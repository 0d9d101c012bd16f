//! The message model (version, headers, body), its builder, and values that hand over bytes
//! or text.
use vstd::prelude::*;
use vstd::utf8::*;
use crate::map::{HTTPHeadMap, HeaderMappingType, entries_insert, entries_or_empty};
use crate::text::{lossy_text, lossy_text_of, text_bytes};
use crate::version::HTTPVersion;

verus! {

/// A value that can be handed over as bytes or as text.
pub trait HTTPBytes {
    /// The bytes it stands for.
    spec fn bytes_view(&self) -> Seq<u8>;

    /// The text it stands for.
    spec fn text_view(&self) -> Seq<char>;

    fn vec_u8(&self) -> (r: Vec<u8>)
        ensures
            r@ == self.bytes_view(),
    ;

    fn string(&self) -> (r: String)
        ensures
            r@ == self.text_view(),
    ;
}

impl HTTPBytes for String {
    open spec fn bytes_view(&self) -> Seq<u8> {
        encode_utf8(self@)
    }

    open spec fn text_view(&self) -> Seq<char> {
        self@
    }

    fn vec_u8(&self) -> (r: Vec<u8>) {
        text_bytes(self.as_str())
    }

    fn string(&self) -> (r: String) {
        self.clone()
    }
}

impl<'a> HTTPBytes for &'a str {
    open spec fn bytes_view(&self) -> Seq<u8> {
        encode_utf8(self@)
    }

    open spec fn text_view(&self) -> Seq<char> {
        self@
    }

    fn vec_u8(&self) -> (r: Vec<u8>) {
        text_bytes(*self)
    }

    fn string(&self) -> (r: String) {
        (*self).to_owned()
    }
}

/// Bytes read as text replace what is not UTF-8.
impl<'a> HTTPBytes for &'a [u8] {
    open spec fn bytes_view(&self) -> Seq<u8> {
        self@
    }

    open spec fn text_view(&self) -> Seq<char> {
        lossy_text_of(self@)
    }

    fn vec_u8(&self) -> (r: Vec<u8>) {
        vstd::slice::slice_to_vec(*self)
    }

    fn string(&self) -> (r: String) {
        lossy_text(*self)
    }
}

/// Bytes read as text replace what is not UTF-8.
impl HTTPBytes for Vec<u8> {
    open spec fn bytes_view(&self) -> Seq<u8> {
        self@
    }

    open spec fn text_view(&self) -> Seq<char> {
        lossy_text_of(self@)
    }

    fn vec_u8(&self) -> (r: Vec<u8>) {
        vstd::slice::slice_to_vec(self.as_slice())
    }

    fn string(&self) -> (r: String) {
        lossy_text(self.as_slice())
    }
}


/// A message: protocol version, header collection and body bytes.
#[derive(Clone, Debug)]
pub struct HTTPResponse {
    version: HTTPVersion,
    header: HTTPHeadMap,
    body: Vec<u8>,
}

impl HTTPResponse {
    pub closed spec fn spec_version(&self) -> HTTPVersion {
        self.version
    }

    pub closed spec fn spec_header(&self) -> HTTPHeadMap {
        self.header
    }

    pub closed spec fn spec_body(&self) -> Vec<u8> {
        self.body
    }

    pub fn new(version: HTTPVersion, header: HTTPHeadMap, body: Vec<u8>) -> (r: Self)
        ensures
            r.spec_version() == version,
            r.spec_header() == header,
            r.spec_body() == body,
    {
        HTTPResponse { version, header, body }
    }

    pub fn version(&self) -> (r: HTTPVersion)
        ensures
            r == self.spec_version(),
    {
        self.version
    }

    pub fn header(&self) -> (r: &HTTPHeadMap)
        ensures
            *r == self.spec_header(),
    {
        &self.header
    }

    pub fn header_mut(&mut self) -> (r: &mut HTTPHeadMap)
        ensures
            *r == old(self).spec_header(),
            final(self).spec_header() == *final(r),
            final(self).spec_version() == old(self).spec_version(),
            final(self).spec_body() == old(self).spec_body(),
    {
        &mut self.header
    }

    pub fn body(&self) -> (r: &Vec<u8>)
        ensures
            *r == self.spec_body(),
    {
        &self.body
    }

    pub fn body_mut(&mut self) -> (r: &mut Vec<u8>)
        ensures
            *r == old(self).spec_body(),
            final(self).spec_body() == *final(r),
            final(self).spec_version() == old(self).spec_version(),
            final(self).spec_header() == old(self).spec_header(),
    {
        &mut self.body
    }
}

/// Assembles a message; what is not set takes its default when it is built.
#[derive(Clone, Debug)]
pub struct ResponseBuilder {
    version: Option<HTTPVersion>,
    header: Option<HTTPHeadMap>,
    body: Option<Vec<u8>>,
}

impl ResponseBuilder {
    pub closed spec fn spec_version(&self) -> Option<HTTPVersion> {
        self.version
    }

    pub closed spec fn spec_header(&self) -> Option<HTTPHeadMap> {
        self.header
    }

    pub closed spec fn spec_body(&self) -> Option<Vec<u8>> {
        self.body
    }

    /// A message from all three parts.
    pub fn new(version: HTTPVersion, header: HTTPHeadMap, body: Vec<u8>) -> (r: HTTPResponse)
        ensures
            r.spec_version() == version,
            r.spec_header() == header,
            r.spec_body() == body,
    {
        HTTPResponse::new(version, header, body)
    }

    /// A builder with nothing set.
    pub fn builder() -> (r: Self)
        ensures
            r.spec_version() is None,
            r.spec_header() is None,
            r.spec_body() is None,
    {
        ResponseBuilder { version: None, header: None, body: None }
    }

    pub fn version(self, version: HTTPVersion) -> (r: Self)
        ensures
            r.spec_version() == Some(version),
            r.spec_header() == self.spec_header(),
            r.spec_body() == self.spec_body(),
    {
        let mut this = self;
        this.version = Some(version);
        this
    }

    pub fn header(self, header: HTTPHeadMap) -> (r: Self)
        ensures
            r.spec_version() == self.spec_version(),
            r.spec_header() == Some(header),
            r.spec_body() == self.spec_body(),
    {
        let mut this = self;
        this.header = Some(header);
        this
    }

    /// Reads `t` as a header line and inserts it into the header collection (an empty one if
    /// none is set); a line that cannot be read is ignored.
    pub fn header_insert<T: HeaderMappingType>(self, t: T) -> (r: Self)
        ensures
            r.spec_version() == self.spec_version(),
            r.spec_body() == self.spec_body(),
            r.spec_header() matches Some(h) && h@ == match t.key_value_spec() {
                Ok((k, v)) => entries_insert(entries_or_empty(self.spec_header()), k, v),
                Err(_) => entries_or_empty(self.spec_header()),
            },
    {
        let mut this = self;
        let mut header = match this.header {
            Some(h) => h,
            None => HTTPHeadMap::new(),
        };
        let _ = header.try_insert(t);
        this.header = Some(header);
        this
    }

    /// The message, with version HTTP/1.1, an empty header collection and an empty body where
    /// they were not set.
    pub fn build(self) -> (r: HTTPResponse)
        ensures
            r.spec_version() == match self.spec_version() {
                Some(v) => v,
                None => HTTPVersion::HTTP1_1,
            },
            match self.spec_header() {
                Some(h) => r.spec_header() == h,
                None => r.spec_header()@.len() == 0 && r.spec_header().cursor() is None,
            },
            match self.spec_body() {
                Some(b) => r.spec_body() == b,
                None => r.spec_body()@.len() == 0,
            },
    {
        let version = match self.version {
            Some(v) => v,
            None => HTTPVersion::HTTP1_1,
        };
        let header = match self.header {
            Some(h) => h,
            None => HTTPHeadMap::new(),
        };
        let body = match self.body {
            Some(b) => b,
            None => Vec::new(),
        };
        HTTPResponse::new(version, header, body)
    }

    /// Sets the body to the bytes of `body`.
    pub fn body<T: HTTPBytes>(self, body: T) -> (r: Self)
        ensures
            r.spec_version() == self.spec_version(),
            r.spec_header() == self.spec_header(),
            r.spec_body() matches Some(b) && b@ == body.bytes_view(),
    {
        let mut this = self;
        this.body = Some(body.vec_u8());
        this
    }
}

} // verus!
