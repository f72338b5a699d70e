//! A map that holds one entry without a hash table, and grows into one.
use vstd::prelude::*;

use std::collections::HashMap;

verus! {

broadcast use vstd::std_specs::hash::group_hash_axioms;

/// One entry, or a hash map: mostly one value, promoted to a map on the
/// first insert of another key.
#[derive(Debug)]
pub enum OneOrMap<V> {
    One { key: u64, value: V },
    Many(HashMap<u64, V>),
}

impl<V> View for OneOrMap<V> {
    type V = Map<u64, V>;

    open spec fn view(&self) -> Map<u64, V> {
        match self {
            OneOrMap::One { key, value } => map![*key => *value],
            OneOrMap::Many(m) => m@,
        }
    }
}

impl<V> OneOrMap<V> {
    /// A map of one entry.
    pub fn new(key: u64, value: V) -> (r: OneOrMap<V>)
        ensures
            r@ == map![key => value],
    {
        OneOrMap::One { key, value }
    }

    /// The value of the key, if it has one.
    pub fn get(&self, key: &u64) -> (r: Option<&V>)
        ensures
            match r {
                Some(v) => self@.contains_key(*key) && *v == self@[*key],
                None => !self@.contains_key(*key),
            },
    {
        match self {
            OneOrMap::One { key: single_key, value } => {
                if *key == *single_key {
                    Some(value)
                } else {
                    None
                }
            },
            OneOrMap::Many(map) => map.get(key),
        }
    }

    /// Sets the key's value; returns the value it had, if any. One entry stays
    /// one entry when its own key is set again; another key promotes it to a
    /// map, and a map stays a map.
    pub fn insert(&mut self, key: u64, value: V) -> (r: Option<V>)
        ensures
            final(self)@ == old(self)@.insert(key, value),
            match *old(self) {
                OneOrMap::One { key: k, value: _ } => if k == key {
                    *final(self) == (OneOrMap::<V>::One { key, value })
                } else {
                    *final(self) is Many
                },
                OneOrMap::Many(_) => *final(self) is Many,
            },
            match r {
                Some(v) => old(self)@.contains_key(key) && v == old(self)@[key],
                None => !old(self)@.contains_key(key),
            },
    {
        let mut current = OneOrMap::Many(HashMap::new());
        std::mem::swap(&mut current, self);
        match current {
            OneOrMap::One { key: single_key, value: single_value } => {
                if single_key == key {
                    *self = OneOrMap::One { key, value };
                    proof {
                        assert(map![key => value] =~= map![single_key => single_value].insert(key, value));
                    }
                    Some(single_value)
                } else {
                    let mut map = HashMap::with_capacity(2);
                    map.insert(key, value);
                    map.insert(single_key, single_value);
                    proof {
                        assert(map@ =~= map![single_key => single_value].insert(key, value));
                    }
                    *self = OneOrMap::Many(map);
                    None
                }
            },
            OneOrMap::Many(mut map) => {
                let r = map.insert(key, value);
                *self = OneOrMap::Many(map);
                r
            },
        }
    }
}

/// Reading a key back after inserting it gives the value inserted; other keys
/// keep their values.
pub proof fn lemma_get_after_insert<V>(m: Map<u64, V>, key: u64, value: V, other: u64)
    ensures
        m.insert(key, value).contains_key(key),
        m.insert(key, value)[key] == value,
        other != key ==> (m.insert(key, value).contains_key(other) == m.contains_key(other)),
        other != key && m.contains_key(other) ==> m.insert(key, value)[other] == m[other],
{
}

} // verus!
