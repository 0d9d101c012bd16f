//! A second header collection with the same rules, kept for callers that use its name.
use vstd::prelude::*;
use crate::map::{
    Entries, HTTPHeadMap, cursor_offset, entries_get, entries_insert, entries_remove, unique_keys,
};
use crate::text::{opt_view, pair_view};

pub use crate::map::{HeaderMappingError, HeaderMappingResult, HeaderMappingType};

verus! {

pub type HeaderMapKey = String;

pub type HeaderMapValue = String;

/// A header collection with the same rules as `HTTPHeadMap`, whose cursor callers can read
/// but not set.
#[derive(Clone, Debug)]
pub struct HeaderMap {
    map: HTTPHeadMap,
}

impl View for HeaderMap {
    type V = Entries;

    closed spec fn view(&self) -> Entries {
        self.map@
    }
}

impl Default for HeaderMap {
    fn default() -> (r: Self)
        ensures
            r@ == Seq::<(Seq<char>, Seq<char>)>::empty(),
            r.cursor() is None,
    {
        HeaderMap::new()
    }
}

impl HeaderMap {
    /// The traversal cursor: `None` before a traversal, else the position read next.
    pub closed spec fn cursor(&self) -> Option<usize> {
        self.map.cursor()
    }

    pub fn new() -> (r: Self)
        ensures
            r@ == Seq::<(Seq<char>, Seq<char>)>::empty(),
            r.cursor() is None,
    {
        HeaderMap { map: HTTPHeadMap::new() }
    }

    /// Sets the value of `k`; returns the value it had.
    pub fn insert(&mut self, k: HeaderMapKey, v: HeaderMapValue) -> (r: Option<HeaderMapValue>)
        ensures
            final(self)@ == entries_insert(old(self)@, k@, v@),
            unique_keys(final(self)@),
            opt_view(r) == entries_get(old(self)@, k@),
            final(self).cursor() == old(self).cursor(),
    {
        self.map.insert(k, v)
    }

    /// Removes `k`; returns the value it had.
    pub fn remove(&mut self, k: HeaderMapKey) -> (r: Option<HeaderMapValue>)
        ensures
            final(self)@ == entries_remove(old(self)@, k@),
            unique_keys(final(self)@),
            opt_view(r) == entries_get(old(self)@, k@),
            final(self).cursor() == old(self).cursor(),
    {
        self.map.remove(k)
    }

    pub fn current_iter_count(&self) -> (r: Option<usize>)
        ensures
            r == self.cursor(),
    {
        self.map.current_iter_count()
    }

    pub fn len(&self) -> (r: usize)
        ensures
            r == self@.len(),
            unique_keys(self@),
    {
        self.map.len()
    }

    pub fn insert_tuple(&mut self, tuple: (HeaderMapKey, HeaderMapValue)) -> (r: Option<
        HeaderMapValue,
    >)
        ensures
            final(self)@ == entries_insert(old(self)@, tuple.0@, tuple.1@),
            unique_keys(final(self)@),
            opt_view(r) == entries_get(old(self)@, tuple.0@),
            final(self).cursor() == old(self).cursor(),
    {
        self.map.insert_tuple(tuple)
    }

    pub fn is_empty(&self) -> (r: bool)
        ensures
            r == (self@.len() == 0),
    {
        self.map.is_empty()
    }

    /// Reads `t` as a header line and inserts it; on failure the collection is unchanged.
    pub fn try_insert<T: HeaderMappingType>(&mut self, t: T) -> (r: HeaderMappingResult<
        Option<HeaderMapValue>,
    >)
        ensures
            final(self).cursor() == old(self).cursor(),
            match t.key_value_spec() {
                Ok((k, v)) => {
                    &&& r matches Ok(prev) && opt_view(prev) == entries_get(old(self)@, k)
                    &&& final(self)@ == entries_insert(old(self)@, k, v)
                },
                Err(e) => r == Err::<Option<HeaderMapValue>, _>(e) && final(self)@ == old(self)@,
            },
    {
        self.map.try_insert(t)
    }

    /// One step of the shared traversal, which starts at the first entry when no cursor is set:
    /// the entry at the cursor is yielded and the cursor advances; at the end nothing is
    /// yielded and the cursor is reset, so that a fresh traversal can start.
    pub fn next(&mut self) -> (r: Option<(HeaderMapKey, HeaderMapValue)>)
        ensures
            final(self)@ == old(self)@,
            ({
                let o = cursor_offset(old(self).cursor());
                if o < old(self)@.len() {
                    &&& final(self).cursor() == Some((o + 1) as usize)
                    &&& r matches Some(p) && pair_view(p) == old(self)@[o]
                } else {
                    final(self).cursor() is None && r is None
                }
            }),
    {
        self.map.next()
    }

    /// A copy of the entries, in order; the cursor is not involved.
    pub fn entries(&self) -> (r: Vec<(HeaderMapKey, HeaderMapValue)>)
        ensures
            crate::map::pairs_view(r@) == self@,
    {
        self.map.entries()
    }
}

} // verus!
