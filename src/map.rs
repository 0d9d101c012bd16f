//! The header collection: unique text keys with text values in insertion order, the rules for
//! reading one header line, and a traversal cursor.
use vstd::prelude::*;
use vstd::utf8::*;
use crate::text::{
    tokens, string_views, opt_view, pair_view, tokenize, push_text, chars_of, decode_text,
};

verus! {

broadcast use vstd::seq_lib::group_seq_properties;

pub type HTTPHeadKey = String;

pub type HTTPHeadValue = String;

/// Why a header line could not be read as a key and a value.
#[derive(Copy, Clone, Debug, PartialEq, Eq, Structural)]
pub enum HeaderMappingError {
    /// The bytes are not well-formed UTF-8.
    UnknownChars,
    /// Fewer than two tokens once the first colon is read as a space.
    UnknownString,
    /// The byte sequence is empty.
    EmptyRaw,
    /// The text is empty.
    EmptyString,
}

pub type HeaderMappingResult<T> = Result<T, HeaderMappingError>;

/// The entries of a header collection as (key, value) texts, in the order they were first inserted.
pub type Entries = Seq<(Seq<char>, Seq<char>)>;

pub open spec fn first_key_at(e: Entries, k: Seq<char>, i: int) -> bool {
    &&& 0 <= i < e.len()
    &&& e[i].0 == k
    &&& forall|j: int| 0 <= j < i ==> #[trigger] e[j].0 != k
}

/// The position of key `k` in `e`, or -1 where it is absent.
pub open spec fn key_index(e: Entries, k: Seq<char>) -> int {
    if exists|i: int| first_key_at(e, k, i) {
        choose|i: int| first_key_at(e, k, i)
    } else {
        -1
    }
}

pub open spec fn entries_get(e: Entries, k: Seq<char>) -> Option<Seq<char>> {
    let i = key_index(e, k);
    if i >= 0 {
        Some(e[i].1)
    } else {
        None
    }
}

/// Upsert: an existing key keeps its place and takes the new value; a new key goes last.
pub open spec fn entries_insert(e: Entries, k: Seq<char>, v: Seq<char>) -> Entries {
    let i = key_index(e, k);
    if i >= 0 {
        e.update(i, (k, v))
    } else {
        e.push((k, v))
    }
}

pub open spec fn entries_remove(e: Entries, k: Seq<char>) -> Entries {
    let i = key_index(e, k);
    if i >= 0 {
        e.remove(i)
    } else {
        e
    }
}

pub open spec fn unique_keys(e: Entries) -> bool {
    forall|i: int, j: int| 0 <= i < j < e.len() ==> #[trigger] e[i].0 != #[trigger] e[j].0
}

pub proof fn lemma_key_index(e: Entries, k: Seq<char>, i: int)
    requires
        first_key_at(e, k, i),
    ensures
        key_index(e, k) == i,
{
    let c = choose|c: int| first_key_at(e, k, c);
    assert(first_key_at(e, k, c));
    if c < i {
        assert(e[c].0 != k);
    } else if i < c {
        assert(e[i].0 != k);
    }
}

pub proof fn lemma_key_absent(e: Entries, k: Seq<char>)
    requires
        forall|j: int| 0 <= j < e.len() ==> #[trigger] e[j].0 != k,
    ensures
        key_index(e, k) == -1,
{
}

/// With unique keys, a key found at `j` is found there by `key_index`.
pub proof fn lemma_find_key(e: Entries, j: int)
    requires
        unique_keys(e),
        0 <= j < e.len(),
    ensures
        key_index(e, e[j].0) == j,
{
    assert forall|i: int| 0 <= i < j implies #[trigger] e[i].0 != e[j].0 by {
        assert(e[i].0 != e[j].0);
    }
    lemma_key_index(e, e[j].0, j);
}

pub proof fn lemma_insert_unique(e: Entries, k: Seq<char>, v: Seq<char>)
    requires
        unique_keys(e),
    ensures
        unique_keys(entries_insert(e, k, v)),
{
    let i = key_index(e, k);
    let n = entries_insert(e, k, v);
    if i >= 0 {
        let c = choose|c: int| first_key_at(e, k, c);
        assert(first_key_at(e, k, c));
        assert forall|a: int| 0 <= a < n.len() implies #[trigger] n[a].0 == e[a].0 by {}
        assert forall|a: int, b: int| 0 <= a < b < n.len() implies #[trigger] n[a].0
            != #[trigger] n[b].0 by {
            assert(n[a].0 == e[a].0 && n[b].0 == e[b].0);
        }
    } else {
        assert forall|j: int| 0 <= j < e.len() implies #[trigger] e[j].0 != k by {
            if e[j].0 == k {
                lemma_find_key(e, j);
            }
        }
        assert forall|a: int, b: int| 0 <= a < b < n.len() implies #[trigger] n[a].0
            != #[trigger] n[b].0 by {
            if b == e.len() {
                assert(n[a].0 == e[a].0);
            } else {
                assert(n[a].0 == e[a].0 && n[b].0 == e[b].0);
            }
        }
    }
}

pub proof fn lemma_remove_unique(e: Entries, k: Seq<char>)
    requires
        unique_keys(e),
    ensures
        unique_keys(entries_remove(e, k)),
{
    let i = key_index(e, k);
    let n = entries_remove(e, k);
    if i >= 0 {
        let c = choose|c: int| first_key_at(e, k, c);
        assert(first_key_at(e, k, c));
        assert forall|a: int, b: int| 0 <= a < b < n.len() implies #[trigger] n[a].0
            != #[trigger] n[b].0 by {
            let a2 = if a < i { a } else { a + 1 };
            let b2 = if b < i { b } else { b + 1 };
            assert(n[a] == e[a2] && n[b] == e[b2]);
            assert(e[a2].0 != e[b2].0);
        }
    }
}


/// The text with its first colon read as a space.
pub open spec fn first_colon_at(s: Seq<char>, k: int) -> bool {
    &&& 0 <= k < s.len()
    &&& s[k] == ':'
    &&& forall|j: int| 0 <= j < k ==> #[trigger] s[j] != ':'
}

pub open spec fn colon_as_space(s: Seq<char>) -> Seq<char> {
    if exists|k: int| first_colon_at(s, k) {
        s.update(choose|k: int| first_colon_at(s, k), ' ')
    } else {
        s
    }
}

/// A header line read as key and value: the first colon becomes a space, the first token is
/// the key, and the remaining tokens joined with nothing between them are the value.
pub open spec fn key_value_of(s: Seq<char>) -> HeaderMappingResult<(Seq<char>, Seq<char>)> {
    if s.len() == 0 {
        Err(HeaderMappingError::EmptyString)
    } else {
        let t = tokens(colon_as_space(s));
        if t.len() < 2 {
            Err(HeaderMappingError::UnknownString)
        } else {
            Ok((t[0], t.skip(1).flatten()))
        }
    }
}

/// A header line given as bytes: empty, not UTF-8, or else read as text.
pub open spec fn bytes_key_value(b: Seq<u8>) -> HeaderMappingResult<(Seq<char>, Seq<char>)> {
    if b.len() == 0 {
        Err(HeaderMappingError::EmptyRaw)
    } else if !valid_utf8(b) {
        Err(HeaderMappingError::UnknownChars)
    } else {
        key_value_of(decode_utf8(b))
    }
}

pub open spec fn kv_view(r: HeaderMappingResult<(String, String)>) -> HeaderMappingResult<
    (Seq<char>, Seq<char>),
> {
    match r {
        Ok(p) => Ok(pair_view(p)),
        Err(e) => Err(e),
    }
}

/// Reads the characters of one header line as key and value.
pub fn key_value_chars(v: &Vec<char>) -> (r: HeaderMappingResult<(String, String)>)
    ensures
        kv_view(r) == key_value_of(v@),
{
    if v.len() == 0 {
        return Err(HeaderMappingError::EmptyString);
    }
    let mut w: Vec<char> = Vec::new();
    let mut seen = false;
    let mut i: usize = 0;
    let ghost mut k: int = -1;
    while i < v.len()
        invariant
            i <= v.len(),
            w@.len() == i,
            seen <==> k >= 0,
            !seen ==> forall|j: int| 0 <= j < i ==> #[trigger] v@[j] != ':',
            seen ==> first_colon_at(v@, k) && k < i,
            forall|j: int| 0 <= j < i && j != k ==> #[trigger] w@[j] == v@[j],
            seen ==> w@[k] == ' ',
        decreases v.len() - i,
    {
        if !seen && v[i] == ':' {
            w.push(' ');
            seen = true;
            proof {
                k = i as int;
            }
        } else {
            w.push(v[i]);
        }
        i = i + 1;
    }
    proof {
        if seen {
            let c = choose|c: int| first_colon_at(v@, c);
            assert(first_colon_at(v@, c));
            if c < k {
                assert(v@[c] != ':');
            } else if k < c {
                assert(v@[k] != ':');
            }
            assert(w@ == colon_as_space(v@));
        } else {
            assert(w@ == colon_as_space(v@));
        }
    }
    let toks = tokenize(&w, 0, w.len());
    assert(w@.subrange(0, w@.len() as int) == w@);
    if toks.len() < 2 {
        return Err(HeaderMappingError::UnknownString);
    }
    let ghost t = string_views(toks@);
    let mut value = String::new();
    let mut j: usize = 1;
    while j < toks.len()
        invariant
            1 <= j <= toks.len(),
            t == string_views(toks@),
            value@ == t.subrange(1, j as int).flatten(),
        decreases toks.len() - j,
    {
        push_text(&mut value, toks[j].as_str());
        proof {
            assert(t.subrange(1, j + 1) == t.subrange(1, j as int).push(t[j as int]));
            t.subrange(1, j as int).lemma_flatten_push(t[j as int]);
        }
        j = j + 1;
    }
    assert(t.subrange(1, toks.len() as int) == t.skip(1));
    let key = toks[0].clone();
    Ok((key, value))
}

/// Something that can be read as one header line.
pub trait HeaderMappingType {
    /// What reading it yields.
    spec fn key_value_spec(&self) -> HeaderMappingResult<(Seq<char>, Seq<char>)>;

    fn parse_key_value(&self) -> (r: HeaderMappingResult<(HTTPHeadKey, HTTPHeadValue)>)
        ensures
            kv_view(r) == self.key_value_spec(),
    ;
}

impl HeaderMappingType for String {
    open spec fn key_value_spec(&self) -> HeaderMappingResult<(Seq<char>, Seq<char>)> {
        key_value_of(self@)
    }

    fn parse_key_value(&self) -> (r: HeaderMappingResult<(HTTPHeadKey, HTTPHeadValue)>) {
        key_value_chars(&chars_of(self.as_str()))
    }
}

impl<'a> HeaderMappingType for &'a str {
    open spec fn key_value_spec(&self) -> HeaderMappingResult<(Seq<char>, Seq<char>)> {
        key_value_of(self@)
    }

    fn parse_key_value(&self) -> (r: HeaderMappingResult<(HTTPHeadKey, HTTPHeadValue)>) {
        key_value_chars(&chars_of(*self))
    }
}

impl<'a> HeaderMappingType for &'a [u8] {
    open spec fn key_value_spec(&self) -> HeaderMappingResult<(Seq<char>, Seq<char>)> {
        bytes_key_value(self@)
    }

    fn parse_key_value(&self) -> (r: HeaderMappingResult<(HTTPHeadKey, HTTPHeadValue)>) {
        if self.len() == 0 {
            return Err(HeaderMappingError::EmptyRaw);
        }
        match decode_text(vstd::slice::slice_to_vec(*self)) {
            Some(s) => key_value_chars(&chars_of(s.as_str())),
            None => Err(HeaderMappingError::UnknownChars),
        }
    }
}


pub open spec fn pairs_view(v: Seq<(String, String)>) -> Entries {
    v.map_values(|p: (String, String)| pair_view(p))
}

/// The entries of a collection that may not be there yet.
pub open spec fn entries_or_empty(h: Option<HTTPHeadMap>) -> Entries {
    match h {
        Some(m) => m@,
        None => Seq::empty(),
    }
}

/// Where a traversal that finds the cursor at `c` reads next.
pub open spec fn cursor_offset(c: Option<usize>) -> int {
    match c {
        Some(n) => n as int,
        None => 0,
    }
}

/// A header collection: text keys, each with one text value, in insertion order, with a
/// traversal cursor.
#[derive(Debug)]
pub struct HTTPHeadMap {
    map: Vec<(HTTPHeadKey, HTTPHeadValue)>,
    iter_count: Option<usize>,
}

impl View for HTTPHeadMap {
    type V = Entries;

    closed spec fn view(&self) -> Entries {
        pairs_view(self.map@)
    }
}

impl Default for HTTPHeadMap {
    fn default() -> (r: Self)
        ensures
            r@ == Seq::<(Seq<char>, Seq<char>)>::empty(),
            r.cursor() is None,
    {
        HTTPHeadMap::new()
    }
}

impl Clone for HTTPHeadMap {
    fn clone(&self) -> (r: Self)
        ensures
            r@ == self@,
            r.cursor() == self.cursor(),
    {
        self.duplicate()
    }
}

impl HTTPHeadMap {
    #[verifier::type_invariant]
    spec fn keys_unique(&self) -> bool {
        unique_keys(self@)
    }

    /// The traversal cursor: `None` before a traversal, else the position read next.
    pub closed spec fn cursor(&self) -> Option<usize> {
        self.iter_count
    }

    pub fn new() -> (r: Self)
        ensures
            r@ == Seq::<(Seq<char>, Seq<char>)>::empty(),
            r.cursor() is None,
    {
        let r = HTTPHeadMap { map: Vec::new(), iter_count: None };
        assert(r@ =~= Seq::<(Seq<char>, Seq<char>)>::empty());
        r
    }

    /// Moves the entries and the cursor out, leaving an empty collection.
    fn take_parts(&mut self) -> (r: (Vec<(HTTPHeadKey, HTTPHeadValue)>, Option<usize>))
        ensures
            pairs_view(r.0@) == old(self)@,
            unique_keys(old(self)@),
            r.1 == old(self).cursor(),
    {
        proof {
            use_type_invariant(&*self);
        }
        let mut taken = HTTPHeadMap::new();
        core::mem::swap(self, &mut taken);
        let HTTPHeadMap { map, iter_count } = taken;
        (map, iter_count)
    }

    /// Finds the position of key `k`.
    fn find(&self, k: &String) -> (r: Option<usize>)
        ensures
            match r {
                Some(i) => key_index(self@, k@) == i && i < self@.len(),
                None => key_index(self@, k@) == -1,
            },
    {
        let mut i: usize = 0;
        while i < self.map.len()
            invariant
                i <= self.map@.len(),
                self@ == pairs_view(self.map@),
                forall|j: int| 0 <= j < i ==> #[trigger] self@[j].0 != k@,
            decreases self.map.len() - i,
        {
            if self.map[i].0 == *k {
                proof {
                    lemma_key_index(self@, k@, i as int);
                }
                return Some(i);
            }
            i = i + 1;
        }
        None
    }

    /// Sets the value of `k`; returns the value it had.
    pub fn insert(&mut self, k: HTTPHeadKey, v: HTTPHeadValue) -> (r: Option<HTTPHeadValue>)
        ensures
            final(self)@ == entries_insert(old(self)@, k@, v@),
            unique_keys(final(self)@),
            opt_view(r) == entries_get(old(self)@, k@),
            final(self).cursor() == old(self).cursor(),
    {
        proof {
            use_type_invariant(&*self);
            lemma_insert_unique(self@, k@, v@);
        }
        let found = self.find(&k);
        let ghost k0 = k@;
        let ghost v0 = v@;
        let (mut map, iter_count) = self.take_parts();
        let prev = match found {
            Some(i) => {
                let (_, prev) = map.remove(i);
                map.insert(i, (k, v));
                Some(prev)
            },
            None => {
                map.push((k, v));
                None
            },
        };
        assert(pairs_view(map@) =~= entries_insert(old(self)@, k0, v0));
        *self = HTTPHeadMap { map, iter_count };
        prev
    }

    /// Removes `k`; returns the value it had.
    pub fn remove(&mut self, k: HTTPHeadKey) -> (r: Option<HTTPHeadValue>)
        ensures
            final(self)@ == entries_remove(old(self)@, k@),
            unique_keys(final(self)@),
            opt_view(r) == entries_get(old(self)@, k@),
            final(self).cursor() == old(self).cursor(),
    {
        proof {
            use_type_invariant(&*self);
            lemma_remove_unique(self@, k@);
        }
        match self.find(&k) {
            Some(i) => {
                let (mut map, iter_count) = self.take_parts();
                let (_, prev) = map.remove(i);
                assert(pairs_view(map@) =~= entries_remove(old(self)@, k@));
                *self = HTTPHeadMap { map, iter_count };
                Some(prev)
            },
            None => None,
        }
    }

    pub fn current_iter_count(&self) -> (r: Option<usize>)
        ensures
            r == self.cursor(),
    {
        self.iter_count
    }

    pub fn current_iter_count_mut(&mut self, value: Option<usize>)
        ensures
            final(self).cursor() == value,
            final(self)@ == old(self)@,
    {
        let (map, _) = self.take_parts();
        *self = HTTPHeadMap { map, iter_count: value };
    }

    pub fn len(&self) -> (r: usize)
        ensures
            r == self@.len(),
            unique_keys(self@),
    {
        proof {
            use_type_invariant(self);
        }
        self.map.len()
    }

    pub fn insert_tuple(&mut self, tuple: (HTTPHeadKey, HTTPHeadValue)) -> (r: Option<
        HTTPHeadValue,
    >)
        ensures
            final(self)@ == entries_insert(old(self)@, tuple.0@, tuple.1@),
            unique_keys(final(self)@),
            opt_view(r) == entries_get(old(self)@, tuple.0@),
            final(self).cursor() == old(self).cursor(),
    {
        self.insert(tuple.0, tuple.1)
    }

    pub fn is_empty(&self) -> (r: bool)
        ensures
            r == (self@.len() == 0),
    {
        self.len() == 0
    }

    /// Reads `t` as a header line and inserts it; on failure the collection is unchanged.
    pub fn try_insert<T: HeaderMappingType>(&mut self, t: T) -> (r: HeaderMappingResult<
        Option<HTTPHeadValue>,
    >)
        ensures
            final(self).cursor() == old(self).cursor(),
            match t.key_value_spec() {
                Ok((k, v)) => {
                    &&& r matches Ok(prev) && opt_view(prev) == entries_get(old(self)@, k)
                    &&& final(self)@ == entries_insert(old(self)@, k, v)
                },
                Err(e) => r == Err::<Option<HTTPHeadValue>, _>(e) && final(self)@ == old(self)@,
            },
    {
        match t.parse_key_value() {
            Ok(kv) => Ok(self.insert_tuple(kv)),
            Err(e) => Err(e),
        }
    }

    /// The value of `k`, if any.
    pub fn get(&self, k: &String) -> (r: Option<HTTPHeadValue>)
        ensures
            opt_view(r) == entries_get(self@, k@),
    {
        match self.find(k) {
            Some(i) => Some(self.map[i].1.clone()),
            None => None,
        }
    }

    /// A copy of the entries, in order; the cursor is not involved.
    pub fn entries(&self) -> (r: Vec<(HTTPHeadKey, HTTPHeadValue)>)
        ensures
            pairs_view(r@) == self@,
    {
        let mut r: Vec<(HTTPHeadKey, HTTPHeadValue)> = Vec::new();
        let mut i: usize = 0;
        while i < self.map.len()
            invariant
                i <= self.map@.len(),
                self@ == pairs_view(self.map@),
                pairs_view(r@) == self@.take(i as int),
            decreases self.map.len() - i,
        {
            let e = &self.map[i];
            let ghost before = r@;
            let k = e.0.clone();
            let v = e.1.clone();
            assert(pair_view((k, v)) == self@[i as int]);
            r.push((k, v));
            assert(pairs_view(r@) =~= pairs_view(before).push(self@[i as int]));
            assert(pairs_view(r@) =~= self@.take(i + 1));
            i = i + 1;
        }
        assert(self@.take(i as int) =~= self@);
        r
    }

    /// A collection with the same entries and cursor.
    pub fn duplicate(&self) -> (r: Self)
        ensures
            r@ == self@,
            r.cursor() == self.cursor(),
    {
        proof {
            use_type_invariant(self);
        }
        HTTPHeadMap { map: self.entries(), iter_count: self.iter_count }
    }

    /// One step of the shared traversal, which starts at the first entry when no cursor is set:
    /// the entry at the cursor is yielded and the cursor advances; at the end nothing is
    /// yielded and the cursor is reset, so that a fresh traversal can start.
    pub fn next(&mut self) -> (r: Option<(HTTPHeadKey, HTTPHeadValue)>)
        ensures
            final(self)@ == old(self)@,
            ({
                let o = cursor_offset(old(self).cursor());
                if o < old(self)@.len() {
                    &&& final(self).cursor() == Some((o + 1) as usize)
                    &&& r matches Some(p) && pair_view(p) == old(self)@[o]
                } else {
                    final(self).cursor() is None && r is None
                }
            }),
    {
        let offset = match self.iter_count {
            Some(c) => c,
            None => 0,
        };
        if offset >= self.map.len() {
            self.current_iter_count_mut(None);
            return None;
        }
        let (k, v) = &self.map[offset];
        let entry = (k.clone(), v.clone());
        self.current_iter_count_mut(Some(offset + 1));
        Some(entry)
    }
}

} // verus!
