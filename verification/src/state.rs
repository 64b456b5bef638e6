//! What the apply stage changes: a store from key hashes to values.

use vstd::prelude::*;
use std::collections::BTreeMap;
use std::collections::HashMap;
use crate::table::PartitionedHashMapHandle;

verus! {

/// A store of values under 64-bit key hashes.
pub trait State {
    /// The bindings that the store holds.
    spec fn entries(&self) -> Map<u64, Seq<u8>>;

    /// Whether the store is in a state that its operations keep up.
    spec fn wf(&self) -> bool;

    /// Whether the store may be asked to bind `key`.
    spec fn admits(&self, key: u64) -> bool;

    /// The value bound to `key`, if there is one.
    fn get(&self, key: &u64) -> (found: Option<&Vec<u8>>)
        requires
            self.wf(),
        ensures
            match found {
                Some(value) => self.entries().contains_key(*key) && self.entries()[*key]
                    == value@,
                None => !self.entries().contains_key(*key),
            },
    ;

    /// Binds `key` to `value` and returns the value that was bound to it
    /// before, if there was one.
    fn put(&mut self, key: u64, value: Vec<u8>) -> (previous: Option<Vec<u8>>)
        requires
            old(self).wf(),
            old(self).admits(key),
        ensures
            final(self).wf(),
            forall|k: u64| final(self).admits(k) == old(self).admits(k),
            final(self).entries() == old(self).entries().insert(key, value@),
            match previous {
                Some(earlier) => old(self).entries().contains_key(key) && old(self).entries()[key]
                    == earlier@,
                None => !old(self).entries().contains_key(key),
            },
    ;

    /// Unbinds `key` and returns the value that was bound to it, if there
    /// was one.
    fn delete(&mut self, key: &u64) -> (removed: Option<Vec<u8>>)
        requires
            old(self).wf(),
        ensures
            final(self).wf(),
            forall|k: u64| final(self).admits(k) == old(self).admits(k),
            final(self).entries() == old(self).entries().remove(*key),
            match removed {
                Some(earlier) => old(self).entries().contains_key(*key) && old(
                    self,
                ).entries()[*key] == earlier@,
                None => !old(self).entries().contains_key(*key),
            },
    ;

    /// Removes every binding.
    fn clear(&mut self)
        requires
            old(self).wf(),
        ensures
            final(self).wf(),
            forall|k: u64| final(self).admits(k) == old(self).admits(k),
            final(self).entries() == Map::<u64, Seq<u8>>::empty(),
    ;
}

impl<const PARTITIONS: usize> State for PartitionedHashMapHandle<PARTITIONS> {
    open spec fn entries(&self) -> Map<u64, Seq<u8>> {
        self@
    }

    open spec fn wf(&self) -> bool {
        PartitionedHashMapHandle::wf(self)
    }

    open spec fn admits(&self, key: u64) -> bool {
        self.owns(key)
    }

    fn get(&self, key: &u64) -> (found: Option<&Vec<u8>>) {
        PartitionedHashMapHandle::get(self, *key)
    }

    fn put(&mut self, key: u64, value: Vec<u8>) -> (previous: Option<Vec<u8>>) {
        PartitionedHashMapHandle::put(self, key, value)
    }

    fn delete(&mut self, key: &u64) -> (removed: Option<Vec<u8>>) {
        PartitionedHashMapHandle::delete(self, *key)
    }

    fn clear(&mut self) {
        PartitionedHashMapHandle::clear(self)
    }
}

/// The bindings of a map of byte vectors, each value taken by its bytes.
pub open spec fn bytes_of(bindings: Map<u64, Vec<u8>>) -> Map<u64, Seq<u8>> {
    bindings.map_values(|value: Vec<u8>| value@)
}

impl State for HashMap<u64, Vec<u8>> {
    open spec fn entries(&self) -> Map<u64, Seq<u8>> {
        bytes_of(self@)
    }

    open spec fn wf(&self) -> bool {
        true
    }

    open spec fn admits(&self, key: u64) -> bool {
        true
    }

    fn get(&self, key: &u64) -> (found: Option<&Vec<u8>>) {
        HashMap::get(self, key)
    }

    fn put(&mut self, key: u64, value: Vec<u8>) -> (previous: Option<Vec<u8>>) {
        let ghost bytes = value@;
        let previous = HashMap::insert(self, key, value);
        assert(bytes_of(self@) =~= bytes_of(old(self)@).insert(key, bytes));
        previous
    }

    fn delete(&mut self, key: &u64) -> (removed: Option<Vec<u8>>) {
        let removed = HashMap::remove(self, key);
        assert(bytes_of(self@) =~= bytes_of(old(self)@).remove(*key));
        removed
    }

    fn clear(&mut self) {
        HashMap::clear(self);
        assert(bytes_of(self@) =~= Map::<u64, Seq<u8>>::empty());
    }
}

impl State for BTreeMap<u64, Vec<u8>> {
    open spec fn entries(&self) -> Map<u64, Seq<u8>> {
        bytes_of(self@)
    }

    open spec fn wf(&self) -> bool {
        true
    }

    open spec fn admits(&self, key: u64) -> bool {
        true
    }

    fn get(&self, key: &u64) -> (found: Option<&Vec<u8>>) {
        BTreeMap::get(self, key)
    }

    fn put(&mut self, key: u64, value: Vec<u8>) -> (previous: Option<Vec<u8>>) {
        let ghost bytes = value@;
        let previous = BTreeMap::insert(self, key, value);
        assert(bytes_of(self@) =~= bytes_of(old(self)@).insert(key, bytes));
        previous
    }

    fn delete(&mut self, key: &u64) -> (removed: Option<Vec<u8>>) {
        let removed = BTreeMap::remove(self, key);
        assert(bytes_of(self@) =~= bytes_of(old(self)@).remove(*key));
        removed
    }

    fn clear(&mut self) {
        BTreeMap::clear(self);
        assert(bytes_of(self@) =~= Map::<u64, Seq<u8>>::empty());
    }
}

} // verus!
