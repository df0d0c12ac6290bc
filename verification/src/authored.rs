//! The lights' authored settings, remembered so a budget can restore them.
//!
//! A budget switches lights (or their shadows) off and on again; what it must never lose is what
//! the game itself set up. The first time it sees a light it writes down the light's own setting,
//! keyed by the light's scene and node, and keeps that until the scene goes away.
//!
//! The entries live in an `fxhash::FxHashMap`, the map the engine uses for such bookkeeping. The
//! map is private to [`AuthoredMap`]; every use of it goes through one of the methods below, each
//! a single call on the map, whose contract speaks of [`authored_contents`]: what the map holds.

use fxhash::FxHashMap;
use vstd::prelude::*;

verus! {

/// The authored settings of the lights seen so far, keyed by the light's scene and node handles,
/// each packed into an integer.
#[verifier::external_body]
#[derive(Debug)]
pub struct AuthoredMap {
    map: FxHashMap<(u64, u64), bool>,
}

/// What an [`AuthoredMap`] holds: for each light seen, the setting it had when first seen.
pub uninterp spec fn authored_contents(m: AuthoredMap) -> Map<(u64, u64), bool>;

impl View for AuthoredMap {
    type V = Map<(u64, u64), bool>;

    open spec fn view(&self) -> Map<(u64, u64), bool> {
        authored_contents(*self)
    }
}

impl AuthoredMap {
    /// An empty map (`FxHashMap::default`).
    #[verifier::external_body]
    pub(crate) fn new() -> (m: AuthoredMap)
        ensures
            authored_contents(m).dom().is_empty(),
    {
        AuthoredMap { map: FxHashMap::default() }
    }

    /// `*map.entry(key).or_insert(current)`: the setting remembered for `key`, which is
    /// `current` when the key was not there yet (and is then inserted with it); an entry already
    /// there is left as it was.
    #[verifier::external_body]
    pub(crate) fn remember(&mut self, key: (u64, u64), current: bool) -> (authored: bool)
        ensures
            authored_contents(*final(self)) == (if authored_contents(*old(self)).contains_key(key) {
                authored_contents(*old(self))
            } else {
                authored_contents(*old(self)).insert(key, current)
            }),
            authored == authored_contents(*final(self))[key],
    {
        *self.map.entry(key).or_insert(current)
    }

    /// `map.keys()`, collected: every key once, in the map's own order, which this leaves open.
    #[verifier::external_body]
    pub(crate) fn keys(&self) -> (keys: Vec<(u64, u64)>)
        ensures
            keys@.no_duplicates(),
            keys@.to_set() == authored_contents(*self).dom(),
    {
        self.map.keys().copied().collect()
    }

    /// `map.clone()`: a map with the same entries.
    #[verifier::external_body]
    pub(crate) fn duplicate(&self) -> (copy: AuthoredMap)
        ensures
            authored_contents(copy) == authored_contents(*self),
    {
        AuthoredMap { map: self.map.clone() }
    }

    /// `map == other.map`: whether the two maps hold the same keys, each with the same value.
    #[verifier::external_body]
    pub(crate) fn same_entries(&self, other: &AuthoredMap) -> (same: bool)
        ensures
            same == (authored_contents(*self) == authored_contents(*other)),
    {
        self.map == other.map
    }

    /// `map.remove(&key)`: the map without `key`, whether or not it was there.
    #[verifier::external_body]
    pub(crate) fn remove(&mut self, key: (u64, u64))
        ensures
            authored_contents(*final(self)) == authored_contents(*old(self)).remove(key),
    {
        self.map.remove(&key);
    }
}

} // verus!
