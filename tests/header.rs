use http_codec::header_map::HeaderMap;
use http_codec::map::{HTTPHeadMap, HeaderMappingError, HeaderMappingType};

fn s(x: &str) -> String {
    x.to_string()
}

#[test]
fn insert_is_an_upsert() {
    let mut h = HTTPHeadMap::new();
    assert!(h.is_empty());
    assert_eq!(h.insert(s("Host"), s("a")), None);
    assert_eq!(h.insert(s("Accept"), s("b")), None);
    assert_eq!(h.insert(s("Host"), s("c")), Some(s("a")));
    assert_eq!(h.len(), 2);
    assert_eq!(h.entries(), vec![(s("Host"), s("c")), (s("Accept"), s("b"))]);
    assert_eq!(h.get(&s("Host")), Some(s("c")));
    assert_eq!(h.get(&s("host")), None);
}

#[test]
fn remove_returns_the_value() {
    let mut h = HTTPHeadMap::new();
    h.insert_tuple((s("a"), s("1")));
    h.insert_tuple((s("b"), s("2")));
    assert_eq!(h.remove(s("a")), Some(s("1")));
    assert_eq!(h.remove(s("a")), None);
    assert_eq!(h.entries(), vec![(s("b"), s("2"))]);
}

#[test]
fn line_parsing() {
    assert_eq!(
        "Host: 127.0.0.1:8000".parse_key_value(),
        Ok((s("Host"), s("127.0.0.1:8000")))
    );
    assert_eq!(s("  Key :  a b\tc ").parse_key_value(), Ok((s("Key"), s("abc"))));
    assert_eq!("a:b:c".parse_key_value(), Ok((s("a"), s("b:c"))));
    assert_eq!("Key:".parse_key_value(), Err(HeaderMappingError::UnknownString));
    assert_eq!("nocolon".parse_key_value(), Err(HeaderMappingError::UnknownString));
    assert_eq!("".parse_key_value(), Err(HeaderMappingError::EmptyString));
    assert_eq!(s("").parse_key_value(), Err(HeaderMappingError::EmptyString));
    let empty: &[u8] = &[];
    assert_eq!(empty.parse_key_value(), Err(HeaderMappingError::EmptyRaw));
    let bad: &[u8] = &[0x41, 0x3a, 0xff];
    assert_eq!(bad.parse_key_value(), Err(HeaderMappingError::UnknownChars));
    let good: &[u8] = b"X:\xc3\xa9";
    assert_eq!(good.parse_key_value(), Ok((s("X"), s("\u{e9}"))));
    assert_eq!("A:\u{a0}b\u{3000}c".parse_key_value(), Ok((s("A"), s("bc"))));
}

#[test]
fn try_insert_leaves_the_map_on_failure() {
    let mut h = HTTPHeadMap::new();
    assert_eq!(h.try_insert("Host: x"), Ok(None));
    assert_eq!(h.try_insert("Host: y"), Ok(Some(s("x"))));
    assert_eq!(h.try_insert("broken"), Err(HeaderMappingError::UnknownString));
    assert_eq!(h.entries(), vec![(s("Host"), s("y"))]);
}

#[test]
fn cursor_traversal() {
    let mut h = HTTPHeadMap::new();
    h.insert(s("a"), s("1"));
    h.insert(s("b"), s("2"));
    assert_eq!(h.current_iter_count(), None);
    assert_eq!(h.next(), Some((s("a"), s("1"))));
    assert_eq!(h.current_iter_count(), Some(1));
    assert_eq!(h.next(), Some((s("b"), s("2"))));
    assert_eq!(h.next(), None);
    assert_eq!(h.current_iter_count(), None);
    assert_eq!(h.next(), Some((s("a"), s("1"))));
    h.current_iter_count_mut(Some(7));
    assert_eq!(h.next(), None);
    assert_eq!(h.current_iter_count(), None);
}

#[test]
fn cursor_on_empty_map() {
    let mut h = HTTPHeadMap::new();
    assert_eq!(h.next(), None);
    assert_eq!(h.current_iter_count(), None);
    h.insert(s("k"), s("v"));
    assert_eq!(h.next(), Some((s("k"), s("v"))));
    assert_eq!(h.current_iter_count(), Some(1));
    assert_eq!(h.next(), None);
    assert_eq!(h.current_iter_count(), None);
}

#[test]
fn clone_keeps_entries_and_cursor() {
    let mut h = HTTPHeadMap::default();
    h.insert(s("k"), s("v"));
    h.next();
    let c = h.clone();
    assert_eq!(c.entries(), h.entries());
    assert_eq!(c.current_iter_count(), Some(1));
}

#[test]
fn header_map_has_the_same_rules() {
    let mut h = HeaderMap::new();
    assert_eq!(h.try_insert("Host: 127.0.0.1:8000"), Ok(None));
    assert_eq!(h.insert(s("Host"), s("x")), Some(s("127.0.0.1:8000")));
    assert_eq!(h.insert_tuple((s("A"), s("1"))), None);
    assert_eq!(h.len(), 2);
    assert!(!h.is_empty());
    assert_eq!(h.next(), Some((s("Host"), s("x"))));
    assert_eq!(h.current_iter_count(), Some(1));
    assert_eq!(h.remove(s("Host")), Some(s("x")));
    assert_eq!(h.entries(), vec![(s("A"), s("1"))]);
    assert_eq!(h.try_insert(""), Err(HeaderMappingError::EmptyString));
    assert!(HeaderMap::default().is_empty());
}

#[test]
fn header_map_cursor_resets_at_end() {
    let mut h = HeaderMap::new();
    assert_eq!(h.next(), None);
    assert_eq!(h.current_iter_count(), None);
    h.insert(s("k"), s("v"));
    assert_eq!(h.next(), Some((s("k"), s("v"))));
    assert_eq!(h.next(), None);
    assert_eq!(h.current_iter_count(), None);
}
