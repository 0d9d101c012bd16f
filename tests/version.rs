use http_codec::version::{HTTPVersion, HTTPVersionParseError};

#[test]
fn version_byte_test() {
    let byte = HTTPVersion::HTTP1_1.as_bytes();
    assert_eq!("HTTP/1.1".as_bytes(), byte.as_slice());
}

#[test]
fn versions_round_trip() {
    for v in [HTTPVersion::HTTP1_0, HTTPVersion::HTTP1_1, HTTPVersion::HTTP2] {
        assert_eq!(HTTPVersion::from_raw(v.as_bytes()), Ok(v));
        let s: String = v.into();
        assert_eq!(s, v.to_string());
    }
    assert_eq!(HTTPVersion::HTTP2.to_string(), "HTTP/2");
    assert_eq!(HTTPVersion::HTTP1_0.to_string(), "HTTP/1.0");
}

#[test]
fn version_errors() {
    assert_eq!(HTTPVersion::from_raw(b"HTTP/3".to_vec()), Err(HTTPVersionParseError::NotMatch));
    assert_eq!(HTTPVersion::from_raw(b"http/1.1".to_vec()), Err(HTTPVersionParseError::NotMatch));
    assert_eq!(HTTPVersion::from_raw(Vec::new()), Err(HTTPVersionParseError::NotMatch));
    assert_eq!(HTTPVersion::from_raw(vec![0x48, 0xc3]), Err(HTTPVersionParseError::UnknownChars));
}
