//! Reading requests from bytes and writing requests and responses out.
//!
//! A request is read from UTF-8 text. Its first line holds exactly three whitespace-separated
//! tokens: method, target and version; a target without a leading slash gets one. The lines
//! after it, up to the first empty line, are header lines: each is read as a key and a value,
//! and a line that cannot be read is dropped. Everything after the empty line is the body,
//! byte for byte. A method or version that is not recognized fails the read: there is no
//! fallback to a default.
//!
//! Writing puts the start line, one `key:value` line per header, an empty line, and the body;
//! lines end in CR LF.
use vstd::prelude::*;
use vstd::utf8::*;
use crate::client::HTTPClientResponse;
use crate::map::{Entries, HTTPHeadMap, entries_insert, key_value_chars, key_value_of, pairs_view};
use crate::method::{
    HTTPClientMethod, client_method_from_text, client_method_of_text, client_method_text,
    lemma_client_method_round_trip,
};
use crate::response::HTTPResponse;
use crate::text::{
    is_white, no_white, lemma_tokens_are_words, lemma_tokens_two_words, lemma_tokens_three_words,
    lemma_flatten_no_white, chars_of, decode_text, push_char, push_text, string_of, string_views, text_bytes, tokenize,
    tokens,
};
use crate::version::{
    HTTPVersion, lemma_version_round_trip, version_from_text, version_of_text, version_text,
};

verus! {

/// Why bytes could not be read as a request.
#[derive(Copy, Clone, Debug, PartialEq, Eq, Structural)]
pub enum HTTPParseError {
    /// The bytes are not well-formed UTF-8.
    EncodingError,
    /// The start line does not hold exactly three tokens.
    MalformedStartLine,
    /// The first token of the start line is no known method.
    MethodNotRecognized,
    /// The third token of the start line is no known version.
    VersionNotRecognized,
}

/// What a request holds, as values.
pub struct RequestParts {
    pub method: HTTPClientMethod,
    pub resource: Seq<char>,
    pub version: HTTPVersion,
    pub header: Entries,
    pub body: Seq<u8>,
}

pub open spec fn crlf() -> Seq<char> {
    seq!['\r', '\n']
}

/// The position of the first line feed at or after `p`, or the length where there is none.
pub open spec fn next_newline(s: Seq<char>, p: int) -> int
    decreases s.len() - p,
{
    if p < 0 || p >= s.len() {
        s.len() as int
    } else if s[p] == '\n' {
        p
    } else {
        next_newline(s, p + 1)
    }
}

pub proof fn lemma_next_newline_bounds(s: Seq<char>, p: int)
    requires
        0 <= p <= s.len(),
    ensures
        p <= next_newline(s, p) <= s.len(),
    decreases s.len() - p,
{
    if p < s.len() && s[p] != '\n' {
        lemma_next_newline_bounds(s, p + 1);
    }
}

/// A line without its terminator: one carriage return before the line feed is dropped too.
pub open spec fn strip_cr(l: Seq<char>) -> Seq<char> {
    if l.len() > 0 && l.last() == '\r' {
        l.drop_last()
    } else {
        l
    }
}

/// The header lines that start at `p`, up to the first empty line or the end, and where the
/// body then begins.
pub open spec fn head_from(s: Seq<char>, p: int) -> (Seq<Seq<char>>, int)
    decreases s.len() - p,
    via head_from_decreases
{
    if p < 0 || p >= s.len() {
        (Seq::empty(), s.len() as int)
    } else {
        let q = next_newline(s, p);
        let l = strip_cr(s.subrange(p, q));
        if l.len() == 0 {
            (Seq::empty(), if q < s.len() { q + 1 } else { s.len() as int })
        } else if q < s.len() {
            let r = head_from(s, q + 1);
            (seq![l] + r.0, r.1)
        } else {
            (seq![l], s.len() as int)
        }
    }
}

#[via_fn]
proof fn head_from_decreases(s: Seq<char>, p: int) {
    if 0 <= p && p < s.len() {
        lemma_next_newline_bounds(s, p);
        assert(p <= next_newline(s, p));
    }
}

/// A header line applied to entries: inserted where it reads, ignored where it does not.
pub open spec fn apply_line(e: Entries, l: Seq<char>) -> Entries {
    match key_value_of(l) {
        Ok((k, v)) => entries_insert(e, k, v),
        Err(_) => e,
    }
}

pub open spec fn insert_lines(e: Entries, lines: Seq<Seq<char>>) -> Entries
    decreases lines.len(),
{
    if lines.len() == 0 {
        e
    } else {
        insert_lines(apply_line(e, lines[0]), lines.drop_first())
    }
}

/// A target that does not begin with a slash gets one.
pub open spec fn with_slash(r: Seq<char>) -> Seq<char> {
    if r.len() > 0 && r[0] == '/' {
        r
    } else {
        seq!['/'] + r
    }
}

/// Reads a request from its text: a start line of method, target and version; header lines up
/// to the first empty line; and the rest, verbatim, as the body.
pub open spec fn parse_request_text(s: Seq<char>) -> Result<RequestParts, HTTPParseError> {
    let q = next_newline(s, 0);
    let t = tokens(strip_cr(s.subrange(0, q)));
    if t.len() != 3 {
        Err(HTTPParseError::MalformedStartLine)
    } else if client_method_of_text(t[0]) is None {
        Err(HTTPParseError::MethodNotRecognized)
    } else if version_of_text(t[2]) is None {
        Err(HTTPParseError::VersionNotRecognized)
    } else {
        let h = head_from(s, q + 1);
        Ok(
            RequestParts {
                method: client_method_of_text(t[0])->0,
                resource: with_slash(t[1]),
                version: version_of_text(t[2])->0,
                header: insert_lines(Seq::empty(), h.0),
                body: encode_utf8(s.subrange(h.1, s.len() as int)),
            },
        )
    }
}

pub open spec fn parse_request_bytes(b: Seq<u8>) -> Result<RequestParts, HTTPParseError> {
    if !valid_utf8(b) {
        Err(HTTPParseError::EncodingError)
    } else {
        parse_request_text(decode_utf8(b))
    }
}

/// One header rendered as a line.
pub open spec fn header_line(k: Seq<char>, v: Seq<char>) -> Seq<char> {
    k + seq![':'] + v + crlf()
}

/// The header lines of entries, in order.
pub open spec fn header_block(e: Entries) -> Seq<char>
    decreases e.len(),
{
    if e.len() == 0 {
        Seq::empty()
    } else {
        header_line(e[0].0, e[0].1) + header_block(e.drop_first())
    }
}

pub proof fn lemma_header_block_push(e: Entries, k: Seq<char>, v: Seq<char>)
    ensures
        header_block(e.push((k, v))) == header_block(e) + header_line(k, v),
    decreases e.len(),
{
    if e.len() == 0 {
        assert(e.push((k, v)).drop_first() == e);
        assert(header_block(e.push((k, v))) == header_line(k, v) + header_block(e));
    } else {
        assert(e.push((k, v)).drop_first() == e.drop_first().push((k, v)));
        lemma_header_block_push(e.drop_first(), k, v);
    }
}

/// Everything of a request before its body: start line, header lines, empty line.
pub open spec fn request_head(
    m: HTTPClientMethod,
    resource: Seq<char>,
    v: HTTPVersion,
    e: Entries,
) -> Seq<char> {
    crate::method::client_method_text(m) + seq![' '] + with_slash(resource) + seq![' ']
        + crate::version::version_text(v) + crlf() + header_block(e) + crlf()
}

/// Everything of a response before its body: status line, header lines, empty line.
pub open spec fn response_head(
    status: crate::method::HTTPServerMethod,
    v: HTTPVersion,
    e: Entries,
) -> Seq<char> {
    crate::version::version_text(v) + seq![' '] + crate::method::status_text(status) + crlf()
        + header_block(e) + crlf()
}

/// Appends the header lines of `h`.
pub fn push_header_block(s: &mut String, h: &HTTPHeadMap)
    ensures
        final(s)@ == old(s)@ + header_block(h@),
{
    let entries = h.entries();
    let ghost e = h@;
    let mut i: usize = 0;
    while i < entries.len()
        invariant
            i <= entries@.len(),
            pairs_view(entries@) == e,
            s@ == old(s)@ + header_block(e.take(i as int)),
        decreases entries.len() - i,
    {
        let (k, v) = &entries[i];
        proof {
            assert(e.take(i + 1) == e.take(i as int).push(e[i as int]));
            assert(e[i as int] == (k@, v@));
            lemma_header_block_push(e.take(i as int), k@, v@);
        }
        push_text(s, k.as_str());
        push_char(s, ':');
        push_text(s, v.as_str());
        push_char(s, '\r');
        push_char(s, '\n');
        assert(s@ =~= old(s)@ + header_block(e.take(i + 1)));
        i = i + 1;
    }
    assert(e.take(i as int) == e);
}

/// The position of the first line feed at or after `p`, or the length where there is none.
fn find_newline(v: &Vec<char>, p: usize) -> (r: usize)
    requires
        p <= v.len(),
    ensures
        r as int == next_newline(v@, p as int),
        p <= r <= v.len(),
{
    let mut i = p;
    while i < v.len() && v[i] != '\n'
        invariant
            p <= i <= v.len(),
            next_newline(v@, p as int) == next_newline(v@, i as int),
        decreases v.len() - i,
    {
        i = i + 1;
    }
    i
}

/// The end of the line `v[p..q]` once a carriage return before its terminator is dropped.
fn line_end(v: &Vec<char>, p: usize, q: usize) -> (r: usize)
    requires
        p <= q <= v.len(),
    ensures
        p <= r <= q,
        v@.subrange(p as int, r as int) == strip_cr(v@.subrange(p as int, q as int)),
{
    if q > p && v[q - 1] == '\r' {
        assert(v@.subrange(p as int, q - 1) == v@.subrange(p as int, q as int).drop_last());
        q - 1
    } else {
        q
    }
}

/// Reads the header lines from `p` on into `header`; returns where the body begins.
fn read_head(v: &Vec<char>, p: usize, header: &mut HTTPHeadMap) -> (r: usize)
    requires
        p <= v.len(),
    ensures
        final(header)@ == insert_lines(old(header)@, head_from(v@, p as int).0),
        r == head_from(v@, p as int).1,
        r <= v.len(),
        final(header).cursor() == old(header).cursor(),
{
    let ghost target = head_from(v@, p as int);
    let mut i = p;
    let mut done = false;
    let mut body_at: usize = v.len();
    while !done && i < v.len()
        invariant
            i <= v.len(),
            header.cursor() == old(header).cursor(),
            target == head_from(v@, p as int),
            done ==> header@ == insert_lines(old(header)@, target.0) && body_at == target.1,
            !done ==> insert_lines(header@, head_from(v@, i as int).0) == insert_lines(
                old(header)@,
                target.0,
            ) && head_from(v@, i as int).1 == target.1,
            body_at <= v.len(),
            !done ==> body_at == v.len(),
        decreases v.len() - i + (if done { 0int } else { 1int }),
    {
        let q = find_newline(v, i);
        let e = line_end(v, i, q);
        let ghost rest = head_from(v@, q + 1);
        if e == i {
            body_at = if q < v.len() {
                q + 1
            } else {
                v.len()
            };
            done = true;
        } else {
            let mut line: Vec<char> = Vec::new();
            let mut j = i;
            while j < e
                invariant
                    i <= j <= e <= v.len(),
                    line@ == v@.subrange(i as int, j as int),
                decreases e - j,
            {
                line.push(v[j]);
                assert(line@ =~= v@.subrange(i as int, j + 1));
                j = j + 1;
            }
            let ghost before = header@;
            match key_value_chars(&line) {
                Ok((k, val)) => {
                    header.insert(k, val);
                },
                Err(_) => {},
            }
            proof {
                let l = v@.subrange(i as int, e as int);
                let hs = head_from(v@, i as int).0;
                assert(header@ == apply_line(before, l));
                if q < v.len() {
                    assert(hs == seq![l] + rest.0);
                    assert(hs.drop_first() == rest.0);
                } else {
                    assert(hs == seq![l]);
                    assert(hs.drop_first() == Seq::<Seq<char>>::empty());
                    assert(head_from(v@, v@.len() as int).0 == Seq::<Seq<char>>::empty());
                }
                assert(hs[0] == l);
                assert(insert_lines(before, hs) == insert_lines(header@, hs.drop_first()));
            }
            if q < v.len() {
                i = q + 1;
            } else {
                i = v.len();
            }
        }
    }
    proof {
        if !done {
            assert(head_from(v@, i as int).1 == v@.len());
        }
    }
    body_at
}

/// Reads a request from raw bytes.
pub fn parse_request(raw: Vec<u8>) -> (r: Result<HTTPClientResponse, HTTPParseError>)
    ensures
        match parse_request_bytes(raw@) {
            Ok(p) => r matches Ok(w) && w.parts() == p && w.spec_response().spec_header().cursor() is None,
            Err(e) => r == Err::<HTTPClientResponse, _>(e),
        },
{
    let text = match decode_text(raw) {
        Some(s) => s,
        None => {
            return Err(HTTPParseError::EncodingError);
        },
    };
    let v = chars_of(text.as_str());
    let ghost s = v@;
    let q = find_newline(&v, 0);
    let e = line_end(&v, 0, q);
    let toks = tokenize(&v, 0, e);
    if toks.len() != 3 {
        return Err(HTTPParseError::MalformedStartLine);
    }
    let ghost t = string_views(toks@);
    let method = match client_method_from_text(&toks[0]) {
        Some(m) => m,
        None => {
            return Err(HTTPParseError::MethodNotRecognized);
        },
    };
    let version = match version_from_text(&toks[2]) {
        Some(ver) => ver,
        None => {
            return Err(HTTPParseError::VersionNotRecognized);
        },
    };
    let target = chars_of(toks[1].as_str());
    let resource = if target.len() > 0 && target[0] == '/' {
        toks[1].clone()
    } else {
        let mut r = String::new();
        push_char(&mut r, '/');
        push_text(&mut r, toks[1].as_str());
        r
    };
    assert(resource@ =~= with_slash(t[1]));
    let mut header = HTTPHeadMap::new();
    let p = if q < v.len() {
        q + 1
    } else {
        v.len()
    };
    assert(head_from(s, p as int) == head_from(s, q + 1));
    let body_at = read_head(&v, p, &mut header);
    let body = text_bytes(string_of(&v, body_at, v.len()).as_str());
    let response = HTTPResponse::new(version, header, body);
    Ok(HTTPClientResponse::new(response, method, resource))
}


/// The header lines of entries without their terminators.
pub open spec fn lines_of(e: Entries) -> Seq<Seq<char>> {
    e.map_values(|p: (Seq<char>, Seq<char>)| p.0 + seq![':'] + p.1)
}

/// No line feed in `s`.
pub open spec fn one_line(s: Seq<char>) -> bool {
    forall|i: int| 0 <= i < s.len() ==> #[trigger] s[i] != '\n'
}

/// Every key and value fits on one line.
pub open spec fn entries_one_line(e: Entries) -> bool {
    forall|i: int| 0 <= i < e.len() ==> one_line(#[trigger] e[i].0) && one_line(e[i].1)
}

pub proof fn lemma_next_newline_at(s: Seq<char>, p: int, q: int)
    requires
        0 <= p <= q < s.len(),
        s[q] == '\n',
        forall|j: int| p <= j < q ==> #[trigger] s[j] != '\n',
    ensures
        next_newline(s, p) == q,
    decreases q - p,
{
    if p < q {
        lemma_next_newline_at(s, p + 1, q);
    }
}

/// Where the serialized header lines of `e` follow `pre`, the head is read as exactly those
/// lines, and the body begins right after the empty line.
pub proof fn lemma_head_of_block(pre: Seq<char>, e: Entries, body: Seq<char>)
    requires
        entries_one_line(e),
    ensures
        head_from(pre + header_block(e) + crlf() + body, pre.len() as int) == (
            lines_of(e),
            (pre.len() + header_block(e).len() + 2) as int,
        ),
    decreases e.len(),
{
    let s = pre + header_block(e) + crlf() + body;
    let p = pre.len() as int;
    if e.len() == 0 {
        assert(s[p] == '\r');
        assert(s[p + 1] == '\n');
        lemma_next_newline_at(s, p, p + 1);
        assert(s.subrange(p, p + 1) == seq!['\r']);
        assert(lines_of(e) == Seq::<Seq<char>>::empty());
    } else {
        let k = e[0].0;
        let v = e[0].1;
        let rest = e.drop_first();
        let hl = header_line(k, v);
        let pre2 = pre + hl;
        assert(s == pre2 + header_block(rest) + crlf() + body);
        assert(entries_one_line(rest)) by {
            assert forall|i: int| 0 <= i < rest.len() implies one_line(#[trigger] rest[i].0)
                && one_line(rest[i].1) by {
                assert(rest[i] == e[i + 1]);
            }
        }
        assert(one_line(k) && one_line(v)) by {
            assert(e[0].0 == k);
        }
        let q = p + k.len() + v.len() + 2;
        assert forall|j: int| p <= j < q implies #[trigger] s[j] != '\n' by {
            assert(s[j] == hl[j - p]);
            if j - p < k.len() {
                assert(hl[j - p] == k[j - p]);
            } else if j - p > k.len() && j - p < k.len() + 1 + v.len() {
                assert(hl[j - p] == v[j - p - k.len() - 1]);
            }
        }
        assert(s[q] == '\n');
        lemma_next_newline_at(s, p, q);
        let l = k + seq![':'] + v;
        assert(s.subrange(p, q) == l.push('\r'));
        assert(strip_cr(s.subrange(p, q)) == l);
        assert(l.len() > 0);
        lemma_head_of_block(pre2, rest, body);
        assert(q + 1 == pre2.len());
        assert(lines_of(e) == seq![l] + lines_of(rest));
    }
}

/// Which lines a header line is written as and read back from.
pub open spec fn key_ok(k: Seq<char>) -> bool {
    k.len() > 0 && no_white(k) && !k.contains(':')
}

pub open spec fn value_ok(v: Seq<char>) -> bool {
    v.len() > 0 && no_white(v)
}

/// A line `k:v` is read back as key `k` and value `v`.
pub proof fn lemma_key_value_line(k: Seq<char>, v: Seq<char>)
    requires
        key_ok(k),
        value_ok(v),
    ensures
        key_value_of(k + seq![':'] + v) == Ok::<_, crate::map::HeaderMappingError>((k, v)),
{
    let l = k + seq![':'] + v;
    let c = k.len() as int;
    assert(crate::map::first_colon_at(l, c)) by {
        assert forall|j: int| 0 <= j < c implies #[trigger] l[j] != ':' by {
            assert(l[j] == k[j]);
            if k[j] == ':' {
                assert(k.contains(':'));
            }
        }
    }
    let d = choose|d: int| crate::map::first_colon_at(l, d);
    assert(crate::map::first_colon_at(l, d));
    if d < c {
        assert(l[d] != ':');
    } else if c < d {
        assert(l[c] != ':');
    }
    assert(crate::map::colon_as_space(l) == k + seq![' '] + v);
    lemma_tokens_two_words(k, v);
    let t = seq![k, v];
    assert(t.skip(1) == seq![v]);
    assert(seq![v].drop_first() == Seq::<Seq<char>>::empty());
    assert(seq![v].flatten() == v + Seq::<Seq<char>>::empty().flatten());
    assert(v + Seq::<char>::empty() == v);
}

/// Reading the lines of entries with unique keys, one by one, after the first `i` of them
/// rebuilds the entries.
pub proof fn lemma_rebuild(e: Entries, i: int)
    requires
        crate::map::unique_keys(e),
        forall|j: int| #![trigger e[j]] 0 <= j < e.len() ==> key_ok(e[j].0) && value_ok(e[j].1),
        0 <= i <= e.len(),
    ensures
        insert_lines(e.take(i), lines_of(e).skip(i)) == e,
    decreases e.len() - i,
{
    if i == e.len() {
        assert(lines_of(e).skip(i) == Seq::<Seq<char>>::empty());
        assert(e.take(i) == e);
    } else {
        let ls = lines_of(e).skip(i);
        let k = e[i].0;
        let v = e[i].1;
        assert(ls[0] == k + seq![':'] + v);
        lemma_key_value_line(k, v);
        assert forall|j: int| 0 <= j < e.take(i).len() implies #[trigger] e.take(i)[j].0 != k by {
            assert(e[j].0 != e[i].0);
        }
        crate::map::lemma_key_absent(e.take(i), k);
        assert(apply_line(e.take(i), ls[0]) == e.take(i).push((k, v)));
        assert(e.take(i).push((k, v)) == e.take(i + 1));
        assert(ls.drop_first() == lines_of(e).skip(i + 1));
        lemma_rebuild(e, i + 1);
    }
}

/// The header lines that the serializer writes for entries with unique, non-empty keys free of
/// whitespace and colons, and non-empty values free of whitespace, are read back as the same
/// entries in the same order; what follows the empty line is the body, unchanged.
pub proof fn lemma_header_round_trip(pre: Seq<char>, e: Entries, body: Seq<char>)
    requires
        crate::map::unique_keys(e),
        forall|j: int| #![trigger e[j]] 0 <= j < e.len() ==> key_ok(e[j].0) && value_ok(e[j].1),
    ensures
        ({
            let s = pre + header_block(e) + crlf() + body;
            let h = head_from(s, pre.len() as int);
            insert_lines(Seq::empty(), h.0) == e && s.subrange(h.1, s.len() as int) == body
        }),
{
    assert forall|i: int| 0 <= i < e.len() implies one_line(#[trigger] e[i].0) && one_line(
        e[i].1,
    ) by {
        let kv = e[i];
        assert(key_ok(kv.0) && value_ok(kv.1));
        assert forall|j: int| 0 <= j < kv.0.len() implies #[trigger] kv.0[j] != '\n' by {
            assert(!is_white(kv.0[j]));
        }
        assert forall|j: int| 0 <= j < kv.1.len() implies #[trigger] kv.1[j] != '\n' by {
            assert(!is_white(kv.1[j]));
        }
    }
    lemma_head_of_block(pre, e, body);
    lemma_rebuild(e, 0);
    assert(e.take(0) == Seq::<(Seq<char>, Seq<char>)>::empty());
    assert(lines_of(e).skip(0) == lines_of(e));
    let s = pre + header_block(e) + crlf() + body;
    assert(s.subrange((pre.len() + header_block(e).len() + 2) as int, s.len() as int) == body);
}


/// A start line with fewer than three tokens makes the whole read fail, with no request.
pub proof fn lemma_short_start_line(b: Seq<u8>)
    requires
        valid_utf8(b),
        tokens(strip_cr(decode_utf8(b).subrange(0, next_newline(decode_utf8(b), 0)))).len() < 3,
    ensures
        parse_request_bytes(b) == Err::<RequestParts, _>(HTTPParseError::MalformedStartLine),
{
}

/// With no headers, the head is the start line followed directly by the empty line.
pub proof fn lemma_empty_header_block(
    m: HTTPClientMethod,
    resource: Seq<char>,
    status: crate::method::HTTPServerMethod,
    v: HTTPVersion,
)
    ensures
        request_head(m, resource, v, Seq::empty()) == client_method_text(m) + seq![' ']
            + with_slash(resource) + seq![' '] + version_text(v) + crlf() + crlf(),
        response_head(status, v, Seq::empty()) == version_text(v) + seq![' ']
            + crate::method::status_text(status) + crlf() + crlf(),
{
    assert(header_block(Seq::empty()) == Seq::<char>::empty());
    assert(request_head(m, resource, v, Seq::empty()) =~= client_method_text(m) + seq![' ']
        + with_slash(resource) + seq![' '] + version_text(v) + crlf() + crlf());
    assert(response_head(status, v, Seq::empty()) =~= version_text(v) + seq![' ']
        + crate::method::status_text(status) + crlf() + crlf());
}

pub proof fn lemma_encode_concat(a: Seq<char>, b: Seq<char>)
    ensures
        encode_utf8(a + b) == encode_utf8(a) + encode_utf8(b),
    decreases a.len(),
{
    if a.len() > 0 {
        assert((a + b)[0] == a[0]);
        assert((a + b).drop_first() == a.drop_first() + b);
        lemma_encode_concat(a.drop_first(), b);
    } else {
        assert(a + b == b);
    }
}

/// Keys and values are non-empty and hold no white character.
pub open spec fn entries_clean(e: Entries) -> bool {
    forall|i: int|
        #![trigger e[i]]
        0 <= i < e.len() ==> e[i].0.len() > 0 && no_white(e[i].0) && e[i].1.len() > 0 && no_white(
            e[i].1,
        )
}

/// Entries read from header lines, starting from clean entries, stay clean and keep keys unique.
pub proof fn lemma_insert_lines_clean(e: Entries, ls: Seq<Seq<char>>)
    requires
        entries_clean(e),
        crate::map::unique_keys(e),
    ensures
        entries_clean(insert_lines(e, ls)),
        crate::map::unique_keys(insert_lines(e, ls)),
    decreases ls.len(),
{
    if ls.len() > 0 {
        let l = ls[0];
        let n = apply_line(e, l);
        if let Ok((k, v)) = key_value_of(l) {
            let t = tokens(crate::map::colon_as_space(l));
            lemma_tokens_are_words(crate::map::colon_as_space(l));
            assert(t.len() >= 2);
            assert(k == t[0]);
            assert(no_white(t[0]));
            assert forall|i: int| 0 <= i < t.skip(1).len() implies no_white(#[trigger] t.skip(1)[i]) by {
                assert(t.skip(1)[i] == t[i + 1]);
            }
            lemma_flatten_no_white(t.skip(1));
            t.skip(1).lemma_flatten_length_ge_single_element_length(0);
            t.skip(1).lemma_flatten_and_flatten_alt_are_equivalent();
            crate::map::lemma_insert_unique(e, k, v);
            let i = crate::map::key_index(e, k);
            assert forall|j: int| #![trigger n[j]] 0 <= j < n.len() implies n[j].0.len() > 0 && no_white(n[j].0)
                && n[j].1.len() > 0 && no_white(n[j].1) by {
                if i >= 0 {
                    if j != i {
                        assert(n[j] == e[j]);
                    }
                } else if j < e.len() {
                    assert(n[j] == e[j]);
                }
            }
        }
        lemma_insert_lines_clean(n, ls.drop_first());
    }
}

pub proof fn lemma_clean_one_line(e: Entries)
    requires
        entries_clean(e),
    ensures
        entries_one_line(e),
{
    assert forall|i: int| 0 <= i < e.len() implies one_line(#[trigger] e[i].0) && one_line(
        e[i].1,
    ) by {
        let kv = e[i];
        assert(no_white(kv.0) && no_white(kv.1));
        assert forall|j: int| 0 <= j < kv.0.len() implies #[trigger] kv.0[j] != '\n' by {
            assert(!is_white(kv.0[j]));
        }
        assert forall|j: int| 0 <= j < kv.1.len() implies #[trigger] kv.1[j] != '\n' by {
            assert(!is_white(kv.1[j]));
        }
    }
}

pub proof fn lemma_method_word(m: HTTPClientMethod)
    ensures
        client_method_text(m).len() > 0,
        no_white(client_method_text(m)),
{
}

pub proof fn lemma_version_word(v: HTTPVersion)
    ensures
        version_text(v).len() > 0,
        no_white(version_text(v)),
{
}

/// A written request head followed by any text is read back with the method, target, version,
/// the entries that its header lines give, and that text as the body.
pub proof fn lemma_read_written(
    m: HTTPClientMethod,
    resource: Seq<char>,
    v: HTTPVersion,
    e: Entries,
    sb: Seq<char>,
)
    requires
        no_white(resource),
        entries_one_line(e),
    ensures
        ({
            let p = parse_request_text(request_head(m, resource, v, e) + sb);
            &&& p is Ok
            &&& p->Ok_0.method == m
            &&& p->Ok_0.resource == with_slash(resource)
            &&& p->Ok_0.version == v
            &&& p->Ok_0.header == insert_lines(Seq::empty(), lines_of(e))
            &&& p->Ok_0.body == encode_utf8(sb)
        }),
{
    let r = with_slash(resource);
    assert(r.len() > 0 && no_white(r)) by {
        if !(resource.len() > 0 && resource[0] == '/') {
            assert forall|j: int| 0 <= j < r.len() implies !is_white(#[trigger] r[j]) by {
                if j > 0 {
                    assert(r[j] == resource[j - 1]);
                }
            }
        }
    }
    assert(with_slash(r) == r);
    let mm = client_method_text(m);
    let vv = version_text(v);
    lemma_method_word(m);
    lemma_version_word(v);
    let start = mm + seq![' '] + r + seq![' '] + vv;
    let pre = start + crlf();
    let tt = pre + header_block(e) + crlf() + sb;
    assert(request_head(m, resource, v, e) + sb == tt);
    assert forall|j: int| 0 <= j < start.len() implies #[trigger] tt[j] != '\n' by {
        assert(tt[j] == start[j]);
        if j < mm.len() {
            assert(start[j] == mm[j]);
            assert(!is_white(mm[j]));
        } else if mm.len() < j < mm.len() + 1 + r.len() {
            assert(start[j] == r[j - mm.len() - 1]);
            assert(!is_white(r[j - mm.len() - 1]));
        } else if j > mm.len() + 1 + r.len() {
            assert(start[j] == vv[j - mm.len() - 2 - r.len()]);
            assert(!is_white(vv[j - mm.len() - 2 - r.len()]));
        }
    }
    let q2 = (start.len() + 1) as int;
    assert(tt[start.len() as int] == '\r');
    assert(tt[q2] == '\n');
    lemma_next_newline_at(tt, 0, q2);
    assert(tt.subrange(0, q2) == start.push('\r'));
    assert(strip_cr(tt.subrange(0, q2)) == start);
    lemma_tokens_three_words(mm, r, vv);
    lemma_client_method_round_trip(m);
    lemma_version_round_trip(v);
    lemma_head_of_block(pre, e, sb);
    assert(q2 + 1 == pre.len());
    assert(tt.subrange((pre.len() + header_block(e).len() + 2) as int, tt.len() as int) == sb);
}

/// Writing out a request that was read from bytes, and reading the result again, gives the same
/// method, target, version and body; and the same header entries where no key holds a colon.
pub proof fn lemma_reparse(b: Seq<u8>)
    requires
        parse_request_bytes(b) is Ok,
    ensures
        ({
            let p = parse_request_bytes(b)->Ok_0;
            let out = encode_utf8(request_head(p.method, p.resource, p.version, p.header)) + p.body;
            &&& parse_request_bytes(out) is Ok
            &&& parse_request_bytes(out)->Ok_0.method == p.method
            &&& parse_request_bytes(out)->Ok_0.resource == p.resource
            &&& parse_request_bytes(out)->Ok_0.version == p.version
            &&& parse_request_bytes(out)->Ok_0.body == p.body
            &&& (forall|j: int| 0 <= j < p.header.len() ==> !(#[trigger] p.header[j]).0.contains(':'))
                ==> parse_request_bytes(out)->Ok_0.header == p.header
        }),
{
    let p = parse_request_bytes(b)->Ok_0;
    let s = decode_utf8(b);
    let q = next_newline(s, 0);
    let line = strip_cr(s.subrange(0, q));
    let t = tokens(line);
    let h = head_from(s, q + 1);
    let sb = s.subrange(h.1, s.len() as int);
    lemma_tokens_are_words(line);
    let r = with_slash(t[1]);
    assert(r == p.resource);
    assert(no_white(r)) by {
        if !(t[1].len() > 0 && t[1][0] == '/') {
            assert forall|j: int| 0 <= j < r.len() implies !is_white(#[trigger] r[j]) by {
                if j > 0 {
                    assert(r[j] == t[1][j - 1]);
                }
            }
        }
    }
    assert(with_slash(r) == r);
    let e = p.header;
    assert(entries_clean(Seq::empty()));
    assert(crate::map::unique_keys(Seq::<(Seq<char>, Seq<char>)>::empty()));
    lemma_insert_lines_clean(Seq::empty(), h.0);
    lemma_clean_one_line(e);
    let rh = request_head(p.method, p.resource, p.version, e);
    lemma_encode_concat(rh, sb);
    let out = encode_utf8(rh) + p.body;
    assert(out == encode_utf8(rh + sb));
    vstd::utf8::encode_utf8_valid_utf8(rh + sb);
    vstd::utf8::encode_utf8_decode_utf8(rh + sb);
    lemma_read_written(p.method, p.resource, p.version, e, sb);
    if forall|j: int| 0 <= j < e.len() ==> !(#[trigger] e[j]).0.contains(':') {
        assert forall|j: int| #![trigger e[j]] 0 <= j < e.len() implies key_ok(e[j].0) && value_ok(
            e[j].1,
        ) by {
            assert(!e[j].0.contains(':'));
        }
        lemma_rebuild(e, 0);
        assert(e.take(0) == Seq::<(Seq<char>, Seq<char>)>::empty());
        assert(lines_of(e).skip(0) == lines_of(e));
    }
}

/// A request whose header entries have unique, non-empty keys free of whitespace and colons,
/// and non-empty values free of whitespace, is written out and read back with the same entries
/// in the same order, and with the same method, version and body; a target free of whitespace
/// comes back with a leading slash.
pub proof fn lemma_request_header_round_trip(
    m: HTTPClientMethod,
    resource: Seq<char>,
    v: HTTPVersion,
    e: Entries,
    body: Seq<u8>,
)
    requires
        crate::map::unique_keys(e),
        forall|j: int| #![trigger e[j]] 0 <= j < e.len() ==> key_ok(e[j].0) && value_ok(e[j].1),
        no_white(resource),
        valid_utf8(body),
    ensures
        ({
            let p = parse_request_bytes(encode_utf8(request_head(m, resource, v, e)) + body);
            &&& p is Ok
            &&& p->Ok_0.header == e
            &&& p->Ok_0.method == m
            &&& p->Ok_0.resource == with_slash(resource)
            &&& p->Ok_0.version == v
            &&& p->Ok_0.body == body
        }),
{
    let sb = decode_utf8(body);
    vstd::utf8::decode_utf8_encode_utf8(body);
    let rh = request_head(m, resource, v, e);
    lemma_encode_concat(rh, sb);
    vstd::utf8::encode_utf8_valid_utf8(rh + sb);
    vstd::utf8::encode_utf8_decode_utf8(rh + sb);
    assert(entries_clean(e)) by {
        assert forall|i: int| #![trigger e[i]] 0 <= i < e.len() implies e[i].0.len() > 0
            && no_white(e[i].0) && e[i].1.len() > 0 && no_white(e[i].1) by {
            assert(key_ok(e[i].0) && value_ok(e[i].1));
        }
    }
    lemma_clean_one_line(e);
    lemma_read_written(m, resource, v, e, sb);
    lemma_rebuild(e, 0);
    assert(e.take(0) == Seq::<(Seq<char>, Seq<char>)>::empty());
    assert(lines_of(e).skip(0) == lines_of(e));
}

} // verus!
