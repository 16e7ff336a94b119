//! The shared in-memory key-value store: string keys, byte-string values.

use vstd::prelude::*;
use vstd::hash_map::StringHashMap;
use crate::command::copy_bytes;

verus! {

/// An in-memory mapping from string keys to byte values. A missing key is a
/// normal result, never an error. The abstract state is a map from key
/// characters to value bytes.
pub struct Store {
    entries: StringHashMap<Vec<u8>>,
}

impl View for Store {
    type V = Map<Seq<char>, Seq<u8>>;

    closed spec fn view(&self) -> Map<Seq<char>, Seq<u8>> {
        self.entries@.map_values(|v: Vec<u8>| v@)
    }
}

impl Store {
    /// Creates an empty store.
    pub fn new() -> (s: Store)
        ensures
            s@ == Map::<Seq<char>, Seq<u8>>::empty(),
    {
        let s = Store { entries: StringHashMap::new() };
        proof {
            assert(s@ =~= Map::<Seq<char>, Seq<u8>>::empty());
        }
        s
    }

    /// Writes `value` under `key`, replacing any previous value.
    pub fn set(&mut self, key: String, value: Vec<u8>)
        ensures
            final(self)@ == old(self)@.insert(key@, value@),
    {
        let ghost prior = self.entries@;
        self.entries.insert(key, value);
        proof {
            assert(self@ =~= old(self)@.insert(key@, value@));
        }
    }

    /// Reads the value stored under `key`, or `None` if the key was never
    /// written (or was removed). Never fails.
    pub fn get(&self, key: &str) -> (r: Option<Vec<u8>>)
        ensures
            match r {
                Some(v) => self@.contains_key(key@) && v@ == self@[key@],
                None => !self@.contains_key(key@),
            },
    {
        match self.entries.get(key) {
            Some(v) => Some(copy_bytes(v)),
            None => None,
        }
    }

    /// Returns whether `key` currently holds a value.
    pub fn contains_key(&self, key: &str) -> (b: bool)
        ensures
            b == self@.contains_key(key@),
    {
        self.entries.contains_key(key)
    }
}

} // verus!
