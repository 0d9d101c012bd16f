use http_codec::method::{HTTPClientMethod, HTTPMethodMatchError, HTTPMethodMessage, HTTPServerMethod};

#[test]
fn leak_test() {
    let user_method = HTTPServerMethod::Other(200, "OK".to_string());
    let s: String = user_method.into();

    assert_eq!(s, "200 OK")
}

#[test]
fn method_method_test() {
    let ok_method: String = HTTPServerMethod::OK.into();
    assert_eq!("200 OK".to_string(), ok_method)
}

#[test]
fn method_byte_test() {
    let bytes = HTTPServerMethod::OK.as_bytes();
    assert_eq!("200 OK".as_bytes(), bytes.as_slice());

    let method = HTTPServerMethod::Other(200, "OK".to_string());
    let bytes = method.as_bytes();
    assert_eq!("200 OK".as_bytes(), bytes.as_slice());
}

#[test]
fn method_test() {
    let get_method: String = HTTPClientMethod::GET.into();
    assert_eq!(get_method, "GET")
}

#[test]
fn byte_test() {
    let bytes = HTTPClientMethod::GET.as_bytes();
    assert_eq!("GET".as_bytes(), bytes.as_slice());
}

#[test]
fn client_methods_round_trip() {
    let all = [
        HTTPClientMethod::GET,
        HTTPClientMethod::POST,
        HTTPClientMethod::PUT,
        HTTPClientMethod::DELETE,
        HTTPClientMethod::HEAD,
        HTTPClientMethod::OPTIONS,
        HTTPClientMethod::TRACE,
    ];
    for m in all {
        assert_eq!(HTTPClientMethod::from(m.to_string()).unwrap(), m);
    }
    assert_eq!(HTTPClientMethod::DELETE.to_string(), "DELETE");
}

#[test]
fn client_method_is_case_sensitive() {
    assert_eq!(HTTPClientMethod::from("get"), Err(HTTPMethodMatchError::NoMatch));
    assert_eq!(HTTPClientMethod::from("GET "), Err(HTTPMethodMatchError::NoMatch));
    assert_eq!(HTTPClientMethod::from("OPTIONS".as_bytes()), Ok(HTTPClientMethod::OPTIONS));
    assert_eq!(HTTPClientMethod::from(b"TRACE".to_vec()), Ok(HTTPClientMethod::TRACE));
}

#[test]
fn statuses_round_trip() {
    let texts = [
        "200 OK",
        "201 Created",
        "202 Accepted",
        "400 Bad Request",
        "401 Unauthorized",
        "403 Forbidden",
        "404 Not Found",
        "500 Internal Server Error",
    ];
    for t in texts {
        let m = HTTPServerMethod::from(t).unwrap();
        assert_eq!(m.to_string(), t);
    }
}

#[test]
fn other_status_is_rendered_not_read() {
    let m = HTTPServerMethod::Other(418, "I'm a teapot".to_string());
    assert_eq!(m.to_string(), "418 I'm a teapot");
    assert_eq!(HTTPServerMethod::Other(0, String::new()).to_string(), "0 ");
    assert_eq!(HTTPServerMethod::Other(4294967295, "X".to_string()).to_string(), "4294967295 X");
    assert!(matches!(HTTPServerMethod::from("418 I'm a teapot"), Err(HTTPMethodMatchError::NoMatch)));
    assert!(matches!(HTTPServerMethod::from("404 not found"), Err(HTTPMethodMatchError::NoMatch)));
}

#[test]
fn status_from_bytes_not_utf8() {
    let bytes: Vec<u8> = vec![0x32, 0x30, 0x30, 0x20, 0xff];
    assert!(matches!(HTTPServerMethod::from(bytes), Err(HTTPMethodMatchError::NoMatch)));
}
