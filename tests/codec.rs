use std::time::Instant;

use http_codec::client::{HTTPClientResponseBuilder, HTTPClientResponseFormatter};
use http_codec::codec::HTTPParseError;
use http_codec::map::HTTPHeadMap;
use http_codec::method::{HTTPClientMethod, HTTPServerMethod};
use http_codec::response::ResponseBuilder;
use http_codec::server::HTTPServerResponseBuilder;
use http_codec::version::HTTPVersion;

fn s(x: &str) -> String {
    x.to_string()
}

#[test]
fn client_build() {
    let client = HTTPClientResponseFormatter::new_from(
        String::from(
            "POST w/xp HTTP/2
                    Host: 127.0.0.1:8000
                    Hostd: 127.0.0.1:8000
            
                    xxxxxx
                    w"
        )
            .bytes()
            .collect::<Vec<_>>()
    ).build().unwrap();

    let method = client.method();
    let source = client.resource();
    let response_body = String::from_utf8(client.body_clone()).unwrap();
    let version = client.http_version();
    let header = client.header_clone();

    println!("Version:{:?}", version);
    println!("Method:{:?}", method);
    println!("Resource:{:?}", source);
    println!("Header:{:?}", header);
    println!("Body:{:?}", response_body);

    assert_eq!(method, HTTPClientMethod::POST);
    assert_eq!(source, "/w/xp");
    assert_eq!(version, HTTPVersion::HTTP2);
    assert_eq!(header.get(&s("Host")), Some(s("127.0.0.1:8000")));
    assert_eq!(header.get(&s("Hostd")), Some(s("127.0.0.1:8000")));
}

#[test]
fn client_time() {
    let client = HTTPClientResponseFormatter::new_from(
        String::from(
            "POST w/xp HTTP/2
                    Host: 127.0.0.1:8000
                    Hostd: 127.0.0.1:8000
            
                    xxxxxx
                    w"
        )
            .bytes()
            .collect::<Vec<_>>()
    ).build().unwrap();
    let time = Instant::now();
    let http = client.http();
    let time = time.elapsed();
    println!("{}", http);
    println!("Time :{:.4}ms", time.as_micros() as f64 / 1000.0);
    assert!(http.starts_with("POST /w/xp HTTP/2\r\n"));
}

#[test]
fn build() {
    let response = HTTPClientResponseBuilder::new()
        .response(ResponseBuilder::builder().body("CNM").build())
        .resource("/api")
        .method(HTTPClientMethod::POST)
        .build();
    let http = response.http();
    println!("Build:{}", http);
    assert_eq!(http, "POST /api HTTP/1.1\r\n\r\nCNM");

    let format = HTTPClientResponseFormatter::new_from(http).build();
    let again = format.unwrap().http();
    println!("Format:{}", again);
    assert_eq!(again, "POST /api HTTP/1.1\r\n\r\nCNM");
}

#[test]
fn time() {
    let response = HTTPClientResponseBuilder::new()
        .response(ResponseBuilder::builder().body("CNM").build())
        .resource("/api")
        .method(HTTPClientMethod::POST)
        .build();
    let time = Instant::now();
    let http = response.http();
    let time = time.elapsed();

    println!("{}", http);
    println!("{:.4}ms", time.as_micros() as f64 / 1000.0);
    assert!(http.ends_with("CNM"));
}

#[test]
fn parses_post_with_header_and_body() {
    let w = HTTPClientResponseFormatter::new_from(
        "POST /xp HTTP/1.1\r\nHost: 127.0.0.1:8000\r\n\r\nxxxxxx",
    )
    .build()
    .unwrap();
    assert_eq!(w.method(), HTTPClientMethod::POST);
    assert_eq!(w.resource(), "/xp");
    assert_eq!(w.http_version(), HTTPVersion::HTTP1_1);
    assert_eq!(w.header().entries(), vec![(s("Host"), s("127.0.0.1:8000"))]);
    assert_eq!(w.body(), &b"xxxxxx".to_vec());
}

#[test]
fn injects_leading_slash() {
    let w = HTTPClientResponseFormatter::new_from("PUT xp HTTP/2\r\n\r\n").build().unwrap();
    assert_eq!(w.method(), HTTPClientMethod::PUT);
    assert_eq!(w.resource(), "/xp");
    assert_eq!(w.http_version(), HTTPVersion::HTTP2);
    assert!(w.header().is_empty());
    assert!(w.body().is_empty());
}

#[test]
fn short_start_line_fails() {
    for input in ["GET /\r\n\r\n", "GET\r\n", "", "\r\n\r\n", "GET / HTTP/1.1 extra\r\n\r\n"] {
        let f = HTTPClientResponseFormatter::init().cache(input);
        assert_eq!(f.clone().try_build().err(), Some(HTTPParseError::MalformedStartLine));
        assert!(f.build().is_none());
    }
}

#[test]
fn parse_errors() {
    let bad_utf8: Vec<u8> = vec![0x47, 0x45, 0x54, 0x20, 0xc3, 0x28];
    assert_eq!(
        HTTPClientResponseFormatter::new_from(bad_utf8).try_build().err(),
        Some(HTTPParseError::EncodingError)
    );
    assert_eq!(
        HTTPClientResponseFormatter::new_from("FETCH / HTTP/1.1\r\n\r\n").try_build().err(),
        Some(HTTPParseError::MethodNotRecognized)
    );
    assert_eq!(
        HTTPClientResponseFormatter::new_from("GET / HTTP/9\r\n\r\n").try_build().err(),
        Some(HTTPParseError::VersionNotRecognized)
    );
}

#[test]
fn header_lines_that_fail_are_dropped() {
    let w = HTTPClientResponseFormatter::new_from(
        "GET /a HTTP/1.0\nnot-a-header\nA: 1\nA: 2\n\nline one\nline two\n",
    )
    .build()
    .unwrap();
    assert_eq!(w.header().entries(), vec![(s("A"), s("2"))]);
    assert_eq!(w.body(), &b"line one\nline two\n".to_vec());
}

#[test]
fn no_blank_line_means_no_body() {
    let w = HTTPClientResponseFormatter::new_from("HEAD / HTTP/1.1\r\nX: y").build().unwrap();
    assert_eq!(w.header().entries(), vec![(s("X"), s("y"))]);
    assert!(w.body().is_empty());
}

#[test]
fn server_serializes_status_line_and_body() {
    let r = HTTPServerResponseBuilder::builder()
        .response(
            ResponseBuilder::builder()
                .version(HTTPVersion::HTTP1_1)
                .header(HTTPHeadMap::new())
                .body("<h1>Hi</h1>")
                .build(),
        )
        .method(HTTPServerMethod::OK)
        .build();
    assert_eq!(r.clone().http(), "HTTP/1.1 200 OK\r\n\r\n<h1>Hi</h1>");
    assert_eq!(r.http_bytes(), b"HTTP/1.1 200 OK\r\n\r\n<h1>Hi</h1>".to_vec());
}

#[test]
fn empty_headers_still_emit_blank_line() {
    let r = HTTPServerResponseBuilder::builder().build();
    assert_eq!(r.http(), "HTTP/1.1 200 OK\r\n\r\n");
    let c = HTTPClientResponseBuilder::new().build();
    assert_eq!(c.http(), "GET / HTTP/1.1\r\n\r\n");
}

#[test]
fn headers_are_rendered_one_per_line() {
    let mut h = HTTPHeadMap::new();
    h.insert(s("A"), s("1"));
    h.insert(s("B"), s("2"));
    let r = HTTPServerResponseBuilder::new(
        ResponseBuilder::new(HTTPVersion::HTTP2, h, b"x".to_vec()),
        HTTPServerMethod::Other(299, s("Fine")),
    );
    assert_eq!(r.http(), "HTTP/2 299 Fine\r\nA:1\r\nB:2\r\n\r\nx");
}

#[test]
fn header_block_round_trips() {
    let mut h = HTTPHeadMap::new();
    h.insert(s("Host"), s("example.org"));
    h.insert(s("Accept"), s("text/html"));
    h.insert(s("X-Empty-Colon"), s("a:b"));
    let req = HTTPClientResponseBuilder::new()
        .response(ResponseBuilder::builder().header(h.clone()).build())
        .build();
    let back = HTTPClientResponseFormatter::new_from(req.http_bytes()).build().unwrap();
    assert_eq!(back.header().entries(), h.entries());
}

#[test]
fn serialize_then_parse_is_stable() {
    let input = "DELETE items/7 HTTP/1.0\r\nA: x y\r\nbad\r\nB:z\r\n\r\nbody\r\nmore";
    let first = HTTPClientResponseFormatter::new_from(input).build().unwrap();
    let second = HTTPClientResponseFormatter::new_from(first.clone().http_bytes()).build().unwrap();
    assert_eq!(second.method(), first.method());
    assert_eq!(second.resource(), "/items/7");
    assert_eq!(second.resource(), first.resource());
    assert_eq!(second.http_version(), first.http_version());
    assert_eq!(second.header().entries(), first.header().entries());
    assert_eq!(second.body(), first.body());
    assert_eq!(first.body(), &b"body\r\nmore".to_vec());
}

#[test]
fn body_bytes_are_kept_or_replaced() {
    let raw: Vec<u8> = vec![b'o', 0xff, b'k'];
    let r = HTTPServerResponseBuilder::builder()
        .response(ResponseBuilder::builder().body(raw.clone()).build())
        .build();
    assert_eq!(r.clone().http(), "HTTP/1.1 200 OK\r\n\r\no\u{fffd}k");
    let mut expected = b"HTTP/1.1 200 OK\r\n\r\n".to_vec();
    expected.extend_from_slice(&raw);
    assert_eq!(r.http_bytes(), expected);
}

#[test]
fn builders_take_defaults() {
    let m = ResponseBuilder::builder().header_insert("Host: h").header_insert("junk").build();
    assert_eq!(m.version(), HTTPVersion::HTTP1_1);
    assert_eq!(m.header().entries(), vec![(s("Host"), s("h"))]);
    assert!(m.body().is_empty());
    let c = HTTPClientResponseBuilder::new().resource("api").build();
    assert_eq!(c.resource(), "api");
    assert_eq!(c.method(), HTTPClientMethod::GET);
    assert_eq!(c.http(), "GET /api HTTP/1.1\r\n\r\n");
}

#[test]
fn accessors_mutate_in_place() {
    let mut c = HTTPClientResponseBuilder::new().build();
    c.body_mut().extend_from_slice(b"hi");
    c.header_mut().insert(s("K"), s("V"));
    assert_eq!(c.body_clone(), b"hi".to_vec());
    assert_eq!(c.header_clone().entries(), vec![(s("K"), s("V"))]);
    let mut m = ResponseBuilder::builder().build();
    m.body_mut().push(b'!');
    assert_eq!(m.body(), &vec![b'!']);
    assert!(m.header().is_empty());
}
