//! In-memory stores: cache payloads by key, and extents by offset.

use std::collections::HashMap;

use vstd::hash_map::StringHashMap;
use vstd::prelude::*;

verus! {

/// Cache payloads by key, held in memory.
///
/// A read returns exactly the bytes last written at the key, a missing key
/// reads as `None`, and deleting a missing key does nothing.
pub struct MemoryStore {
    entries: StringHashMap<Vec<u8>>,
}

/// The payloads a store holds, by key.
pub open spec fn payloads(m: Map<Seq<char>, Vec<u8>>) -> Map<Seq<char>, Seq<u8>> {
    Map::new(|k: Seq<char>| m.contains_key(k), |k: Seq<char>| m[k]@)
}

impl View for MemoryStore {
    type V = Map<Seq<char>, Seq<u8>>;

    closed spec fn view(&self) -> Map<Seq<char>, Seq<u8>> {
        payloads(self.entries@)
    }
}

impl MemoryStore {
    /// An empty store.
    pub fn new() -> (s: Self)
        ensures
            s@ == Map::<Seq<char>, Seq<u8>>::empty(),
    {
        let s = MemoryStore { entries: StringHashMap::new() };
        s
    }

    /// Creates or overwrites the payload at `key` with `value`.
    pub fn set_cache(&mut self, key: &str, value: &[u8])
        ensures
            final(self)@ == old(self)@.insert(key@, value@),
    {
        let v = vstd::slice::slice_to_vec(value);
        self.entries.insert(key.to_owned(), v);
    }

    /// The payload at `key`, if any.
    pub fn get_cache(&self, key: &str) -> (r: Option<Vec<u8>>)
        ensures
            match r {
                Some(v) => self@.contains_key(key@) && v@ == self@[key@],
                None => !self@.contains_key(key@),
            },
    {
        match self.entries.get(key) {
            Some(v) => Some(copy_bytes(v)),
            None => None,
        }
    }

    /// Deletes the payload at `key`; deleting a missing payload does nothing.
    pub fn delete_cache(&mut self, key: &str)
        ensures
            final(self)@ == old(self)@.remove(key@),
    {
        self.entries.remove(key);
    }
}

/// A copy of `v`.
fn copy_bytes(v: &Vec<u8>) -> (c: Vec<u8>)
    ensures
        c@ == v@,
{
    vstd::slice::slice_to_vec(v.as_slice())
}

/// A read returns exactly the bytes last written at the key, whatever was
/// there before.
pub proof fn lemma_read_after_write(m: Map<Seq<char>, Seq<u8>>, key: Seq<char>, value: Seq<u8>)
    ensures
        m.insert(key, value).contains_key(key),
        m.insert(key, value)[key] == value,
{
}

/// Writing the same key twice keeps the second write.
pub proof fn lemma_last_write_wins(m: Map<Seq<char>, Seq<u8>>, key: Seq<char>, first: Seq<u8>, second: Seq<u8>)
    ensures
        m.insert(key, first).insert(key, second) == m.insert(key, second),
{
}

/// A deleted key reads as missing, and deleting a missing key changes nothing.
pub proof fn lemma_delete(m: Map<Seq<char>, Seq<u8>>, key: Seq<char>)
    ensures
        !m.remove(key).contains_key(key),
        !m.contains_key(key) ==> m.remove(key) == m,
{
}

/// Extents by offset, held in memory; a missing extent reads as empty.
pub struct ExtentMap {
    extents: HashMap<usize, Vec<u8>>,
}

/// The extents a map holds, by offset.
pub open spec fn extent_bytes(m: Map<usize, Vec<u8>>) -> Map<usize, Seq<u8>> {
    Map::new(|k: usize| m.contains_key(k), |k: usize| m[k]@)
}

impl View for ExtentMap {
    type V = Map<usize, Seq<u8>>;

    closed spec fn view(&self) -> Map<usize, Seq<u8>> {
        extent_bytes(self.extents@)
    }
}

/// What reading the extent at `offset` returns: its bytes, or nothing.
pub open spec fn extent_at(m: Map<usize, Seq<u8>>, offset: usize) -> Seq<u8> {
    if m.contains_key(offset) {
        m[offset]
    } else {
        Seq::empty()
    }
}

impl ExtentMap {
    /// An empty extent map.
    pub fn new() -> (s: Self)
        ensures
            s@ == Map::<usize, Seq<u8>>::empty(),
    {
        let s = ExtentMap { extents: HashMap::new() };
        s
    }

    /// Stores `data` as the extent at `offset`, replacing any extent there.
    pub fn create_extent(&mut self, offset: usize, data: Vec<u8>)
        ensures
            final(self)@ == old(self)@.insert(offset, data@),
    {
        proof {
            broadcast use vstd::std_specs::hash::group_hash_axioms;
        }
        self.extents.insert(offset, data);
    }

    /// The extent at `offset`; empty when there is none.
    pub fn read_extent(&self, offset: usize) -> (r: Vec<u8>)
        ensures
            r@ == extent_at(self@, offset),
    {
        proof {
            broadcast use vstd::std_specs::hash::group_hash_axioms;
        }
        match self.extents.get(&offset) {
            Some(v) => copy_bytes(v),
            None => Vec::new(),
        }
    }

    /// Deletes the extent at `offset`, if any.
    pub fn delete_extent(&mut self, offset: usize)
        ensures
            final(self)@ == old(self)@.remove(offset),
    {
        proof {
            broadcast use vstd::std_specs::hash::group_hash_axioms;
        }
        self.extents.remove(&offset);
    }
}

} // verus!
