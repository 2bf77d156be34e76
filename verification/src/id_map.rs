//! A map from 32-bit ids to values.

use vstd::prelude::*;
use std::collections::BTreeMap;

verus! {

/// A map from ids to values, kept in a `BTreeMap`.
pub struct IdMap<V> {
    map: BTreeMap<u32, V>,
}

impl<V> View for IdMap<V> {
    type V = Map<u32, V>;

    closed spec fn view(&self) -> Map<u32, V> {
        self.map@
    }
}

impl<V> IdMap<V> {
    pub fn new() -> (m: IdMap<V>)
        ensures
            m@ == Map::<u32, V>::empty(),
    {
        IdMap { map: BTreeMap::new() }
    }

    /// The value mapped to `k`, if any.
    pub fn get_ref(&self, k: u32) -> (r: Option<&V>)
        ensures
            r matches Some(v) ==> self@.contains_key(k) && *v == self@[k],
            r is None ==> !self@.contains_key(k),
    {
        broadcast use vstd::laws_cmp::group_laws_cmp;
        self.map.get(&k)
    }

    pub fn contains_key(&self, k: u32) -> (b: bool)
        ensures
            b == self@.contains_key(k),
    {
        broadcast use vstd::laws_cmp::group_laws_cmp;
        self.map.contains_key(&k)
    }

    /// Maps `k` to `v`, replacing any earlier value of `k`.
    pub fn insert(&mut self, k: u32, v: V)
        ensures
            final(self)@ == old(self)@.insert(k, v),
    {
        broadcast use vstd::laws_cmp::group_laws_cmp;
        let _ = self.map.insert(k, v);
    }

    /// The number of ids mapped.
    pub fn len(&self) -> (n: usize)
        ensures
            n == self@.dom().len(),
    {
        broadcast use vstd::laws_cmp::group_laws_cmp;
        self.map.len()
    }
}

impl IdMap<u32> {
    /// The index mapped to `k`, if any.
    pub fn get(&self, k: u32) -> (r: Option<u32>)
        ensures
            r == (if self@.contains_key(k) { Some(self@[k]) } else { None::<u32> }),
    {
        match self.get_ref(k) {
            Some(v) => Some(*v),
            None => None,
        }
    }
}

} // verus!
