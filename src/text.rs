//! Text as characters: whitespace, tokens, decimal numerals, and the conversions between
//! strings, characters and UTF-8 bytes that the codec needs.
use vstd::prelude::*;
use vstd::utf8::*;

verus! {

/// The Unicode `White_Space` property, the set that `char::is_whitespace` tests.
pub open spec fn is_white(c: char) -> bool {
    let u = c as u32;
    (0x9 <= u && u <= 0xd) || u == 0x20 || u == 0x85 || u == 0xa0 || u == 0x1680 || (0x2000 <= u
        && u <= 0x200a) || u == 0x2028 || u == 0x2029 || u == 0x202f || u == 0x205f || u == 0x3000
}

/// Whether `c` is white.
pub fn char_is_white(c: char) -> (r: bool)
    ensures
        r == is_white(c),
{
    let u = c as u32;
    (0x9 <= u && u <= 0xd) || u == 0x20 || u == 0x85 || u == 0xa0 || u == 0x1680 || (0x2000 <= u
        && u <= 0x200a) || u == 0x2028 || u == 0x2029 || u == 0x202f || u == 0x205f || u == 0x3000
}

/// The characters of a string slice, in order.
pub fn chars_of(s: &str) -> (r: Vec<char>)
    ensures
        r@ == s@,
{
    let mut r: Vec<char> = Vec::new();
    for c in it: s.chars()
        invariant
            r@ == it.seq().take(it.index() as int),
    {
        r.push(c);
    }
    r
}

/// Relies on `String::push`: appends one character.
#[verifier::external_body]
pub(crate) fn push_char(s: &mut String, c: char)
    ensures
        final(s)@ == old(s)@.push(c),
{
    s.push(c)
}

/// Relies on `String::push_str`: appends the characters of `t`.
#[verifier::external_body]
pub(crate) fn push_text(s: &mut String, t: &str)
    ensures
        final(s)@ == old(s)@ + t@,
{
    s.push_str(t)
}

/// Relies on `String::from_utf8`: succeeds exactly on well-formed UTF-8 and then holds the
/// decoded characters.
#[verifier::external_body]
pub(crate) fn decode_text(bytes: Vec<u8>) -> (r: Option<String>)
    ensures
        r is Some <==> valid_utf8(bytes@),
        r matches Some(s) ==> s@ == decode_utf8(bytes@),
{
    String::from_utf8(bytes).ok()
}

/// What `String::from_utf8_lossy` makes of a byte sequence.
pub uninterp spec fn lossy_text_of(b: Seq<u8>) -> Seq<char>;

/// Relies on `String::from_utf8_lossy`: well-formed UTF-8 is decoded as it is; other input has
/// its ill-formed sequences replaced.
#[verifier::external_body]
pub(crate) fn lossy_text(b: &[u8]) -> (r: String)
    ensures
        r@ == lossy_text_of(b@),
        valid_utf8(b@) ==> r@ == decode_utf8(b@),
{
    String::from_utf8_lossy(b).into_owned()
}

/// The UTF-8 encoding of a string.
pub fn text_bytes(s: &str) -> (r: Vec<u8>)
    ensures
        r@ == encode_utf8(s@),
{
    vstd::slice::slice_to_vec(s.as_bytes())
}

pub open spec fn opt_view(o: Option<String>) -> Option<Seq<char>> {
    match o {
        Some(s) => Some(s@),
        None => None,
    }
}

pub open spec fn pair_view(p: (String, String)) -> (Seq<char>, Seq<char>) {
    (p.0@, p.1@)
}

pub open spec fn digit(d: nat) -> char {
    seq!['0', '1', '2', '3', '4', '5', '6', '7', '8', '9'][d as int]
}

/// The decimal numeral of `n`, without leading zeros.
pub open spec fn decimal(n: nat) -> Seq<char>
    decreases n,
{
    if n < 10 {
        seq![digit(n)]
    } else {
        decimal(n / 10).push(digit(n % 10))
    }
}

/// Appends the decimal numeral of `n`.
pub fn push_decimal(s: &mut String, n: u32)
    ensures
        final(s)@ == old(s)@ + decimal(n as nat),
    decreases n,
{
    if n >= 10 {
        push_decimal(s, n / 10);
    }
    let d = n % 10;
    let c = if d == 0 {
        '0'
    } else if d == 1 {
        '1'
    } else if d == 2 {
        '2'
    } else if d == 3 {
        '3'
    } else if d == 4 {
        '4'
    } else if d == 5 {
        '5'
    } else if d == 6 {
        '6'
    } else if d == 7 {
        '7'
    } else if d == 8 {
        '8'
    } else {
        '9'
    };
    push_char(s, c);
}

/// Whether `s` spells exactly `lit`.
pub fn text_is(s: &String, lit: &str) -> (r: bool)
    ensures
        r == (s@ == lit@),
{
    *s == lit.to_owned()
}

/// A string holding `v[lo..hi]`.
pub fn string_of(v: &Vec<char>, lo: usize, hi: usize) -> (r: String)
    requires
        lo <= hi <= v.len(),
    ensures
        r@ == v@.subrange(lo as int, hi as int),
{
    let mut r = String::new();
    let mut i = lo;
    while i < hi
        invariant
            lo <= i <= hi <= v.len(),
            r@ == v@.subrange(lo as int, i as int),
        decreases hi - i,
    {
        push_char(&mut r, v[i]);
        assert(v@.subrange(lo as int, i + 1) == v@.subrange(lo as int, i as int).push(v@[i as int]));
        i = i + 1;
    }
    r
}

/// The maximal runs of non-white characters, left to right: what `str::split_whitespace` yields.
pub open spec fn tokens(s: Seq<char>) -> Seq<Seq<char>>
    decreases s.len(),
{
    if s.len() == 0 {
        Seq::empty()
    } else {
        let init = s.drop_last();
        let c = s.last();
        let t = tokens(init);
        if is_white(c) {
            t
        } else if init.len() > 0 && !is_white(init.last()) {
            t.update(t.len() - 1, t.last().push(c))
        } else {
            t.push(seq![c])
        }
    }
}

pub proof fn lemma_tokens_open(s: Seq<char>)
    requires
        s.len() > 0,
        !is_white(s.last()),
    ensures
        tokens(s).len() > 0,
    decreases s.len(),
{
    let init = s.drop_last();
    if init.len() > 0 && !is_white(init.last()) {
        lemma_tokens_open(init);
    }
}

/// No character of `s` is white.
pub open spec fn no_white(s: Seq<char>) -> bool {
    forall|i: int| 0 <= i < s.len() ==> !is_white(#[trigger] s[i])
}

/// A white character at the end adds no token.
pub proof fn lemma_tokens_white_end(a: Seq<char>, c: char)
    requires
        is_white(c),
    ensures
        tokens(a.push(c)) == tokens(a),
{
    assert(a.push(c).drop_last() == a);
}

/// A word after nothing or after a white character is one more token.
pub proof fn lemma_tokens_append_word(pre: Seq<char>, t: Seq<char>)
    requires
        pre.len() == 0 || is_white(pre.last()),
        t.len() > 0,
        no_white(t),
    ensures
        tokens(pre + t) == tokens(pre).push(t),
    decreases t.len(),
{
    let s = pre + t;
    assert(s.drop_last() == pre + t.drop_last());
    assert(s.last() == t.last());
    assert(!is_white(t[t.len() - 1]));
    if t.len() == 1 {
        assert(t.drop_last() == Seq::<char>::empty());
        assert(pre + t.drop_last() == pre);
        assert(t == seq![t.last()]);
    } else {
        let u = t.drop_last();
        assert(no_white(u)) by {
            assert forall|i: int| 0 <= i < u.len() implies !is_white(#[trigger] u[i]) by {
                assert(u[i] == t[i]);
            }
        }
        lemma_tokens_append_word(pre, u);
        assert((pre + u).last() == u.last());
        assert(!is_white(t[u.len() - 1]));
        let tp = tokens(pre);
        assert(tokens(pre + u).last() == u);
        assert(u.push(t.last()) == t);
        assert(tokens(pre + u).update(tokens(pre + u).len() - 1, u.push(t.last())) == tp.push(t));
    }
}

/// Two words with a space between are two tokens.
pub proof fn lemma_tokens_two_words(a: Seq<char>, b: Seq<char>)
    requires
        a.len() > 0 && no_white(a),
        b.len() > 0 && no_white(b),
    ensures
        tokens(a + seq![' '] + b) == seq![a, b],
{
    lemma_tokens_append_word(Seq::empty(), a);
    assert(Seq::<char>::empty() + a == a);
    lemma_tokens_white_end(a, ' ');
    assert(a.push(' ') == a + seq![' ']);
    lemma_tokens_append_word(a + seq![' '], b);
    assert(tokens(Seq::<char>::empty()) == Seq::<Seq<char>>::empty());
    assert(seq![a].push(b) == seq![a, b]);
}

/// Three words with a space between each two are three tokens.
pub proof fn lemma_tokens_three_words(a: Seq<char>, b: Seq<char>, c: Seq<char>)
    requires
        a.len() > 0 && no_white(a),
        b.len() > 0 && no_white(b),
        c.len() > 0 && no_white(c),
    ensures
        tokens(a + seq![' '] + b + seq![' '] + c) == seq![a, b, c],
{
    lemma_tokens_two_words(a, b);
    let ab = a + seq![' '] + b;
    lemma_tokens_white_end(ab, ' ');
    assert(ab.push(' ') == ab + seq![' ']);
    lemma_tokens_append_word(ab + seq![' '], c);
    assert(seq![a, b].push(c) == seq![a, b, c]);
}

/// Every token is a non-empty run of non-white characters.
pub proof fn lemma_tokens_are_words(s: Seq<char>)
    ensures
        forall|i: int|
            0 <= i < tokens(s).len() ==> #[trigger] tokens(s)[i].len() > 0 && no_white(
                tokens(s)[i],
            ),
    decreases s.len(),
{
    if s.len() > 0 {
        let init = s.drop_last();
        lemma_tokens_are_words(init);
        let t = tokens(init);
        let c = s.last();
        if !is_white(c) && init.len() > 0 && !is_white(init.last()) {
            lemma_tokens_open(init);
            let w = t.last().push(c);
            assert(no_white(t[t.len() - 1]));
            assert forall|j: int| 0 <= j < w.len() implies !is_white(#[trigger] w[j]) by {
                if j < w.len() - 1 {
                    assert(w[j] == t[t.len() - 1][j]);
                }
            }
        }
    }
}

/// The concatenation of runs of non-white characters has no white character.
pub proof fn lemma_flatten_no_white(ts: Seq<Seq<char>>)
    requires
        forall|i: int| 0 <= i < ts.len() ==> no_white(#[trigger] ts[i]),
    ensures
        no_white(ts.flatten()),
    decreases ts.len(),
{
    if ts.len() > 0 {
        let rest = ts.drop_first();
        assert forall|i: int| 0 <= i < rest.len() implies no_white(#[trigger] rest[i]) by {
            assert(rest[i] == ts[i + 1]);
        }
        lemma_flatten_no_white(rest);
        let f = ts.first() + rest.flatten();
        assert(no_white(ts[0]));
        assert forall|j: int| 0 <= j < f.len() implies !is_white(#[trigger] f[j]) by {
            if j < ts.first().len() {
                assert(f[j] == ts[0][j]);
            } else {
                assert(f[j] == rest.flatten()[j - ts.first().len()]);
            }
        }
    }
}

pub open spec fn string_views(v: Seq<String>) -> Seq<Seq<char>> {
    v.map_values(|t: String| t@)
}

/// Splits `s[lo..hi]` into its whitespace-separated tokens.
pub fn tokenize(s: &Vec<char>, lo: usize, hi: usize) -> (r: Vec<String>)
    requires
        lo <= hi <= s.len(),
    ensures
        string_views(r@) == tokens(s@.subrange(lo as int, hi as int)),
{
    let ghost w = s@.subrange(lo as int, hi as int);
    let mut done: Vec<String> = Vec::new();
    let mut cur = String::new();
    let mut open = false;
    let mut i = lo;
    while i < hi
        invariant
            lo <= i <= hi <= s.len(),
            w == s@.subrange(lo as int, hi as int),
            open == (i > lo && !is_white(s@[i - 1])),
            open ==> tokens(w.take(i - lo)) == string_views(done@).push(cur@),
            !open ==> tokens(w.take(i - lo)) == string_views(done@),
        decreases hi - i,
    {
        let c = s[i];
        let white = char_is_white(c);
        proof {
            let p = w.take(i - lo + 1);
            assert(p.drop_last() == w.take(i - lo));
            assert(p.last() == c);
        }
        if white {
            if open {
                done.push(cur);
                cur = String::new();
                proof {
                    assert(string_views(done@) == string_views(done@.drop_last()).push(
                        done@.last()@,
                    ));
                }
            }
            open = false;
        } else {
            if !open {
                cur = String::new();
            }
            push_char(&mut cur, c);
            open = true;
        }
        i = i + 1;
    }
    if open {
        done.push(cur);
        proof {
            assert(string_views(done@) == string_views(done@.drop_last()).push(done@.last()@));
        }
    }
    assert(w.take(hi - lo) == w);
    done
}

} // verus!
