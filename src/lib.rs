//! A codec for textual HTTP/1.x messages: header collections, methods, statuses and versions,
//! the message model with its builders, and the reading and writing of wire bytes.
pub mod text;
pub mod map;
pub mod header_map;
pub mod version;
pub mod response;
pub mod method;
pub mod codec;
pub mod client;
pub mod server;

pub use client::{HTTPClientResponse, HTTPClientResponseBuilder, HTTPClientResponseFormatter};
pub use codec::HTTPParseError;
pub use header_map::HeaderMap;
pub use map::{HTTPHeadMap, HeaderMappingError, HeaderMappingType};
pub use method::{HTTPClientMethod, HTTPMethodMatchError, HTTPMethodMessage, HTTPServerMethod};
pub use response::{HTTPBytes, HTTPResponse, ResponseBuilder};
pub use server::{HTTPServerResponse, HTTPServerResponseBuilder};
pub use version::{HTTPVersion, HTTPVersionParseError};
