//! The partitioned hash map.
//!
//! The table is made of a fixed number of shards, a power of two. A key is
//! hashed once, to 64 bits; the highest bits of the hash select the shard,
//! and the shard stores the value under the whole hash. Each shard is handed
//! out once, to the one handle through which it is read and changed.

use vstd::prelude::*;
use std::hash::{BuildHasher, Hash, Hasher};
use crate::routing::{is_power_of_two, partition_of, partition_of_hash};

verus! {

/// A hasher that returns the 64-bit number written to it last: the shards
/// are keyed by hashes, which need no second hashing.
#[derive(Debug, Default, Clone, Copy)]
pub struct IdentityHasher(u64);

impl IdentityHasher {
    /// The number written last; zero before the first.
    pub closed spec fn written(&self) -> u64 {
        self.0
    }
}

impl Hasher for IdentityHasher {
    fn finish(&self) -> (hash: u64)
        ensures
            hash == self.written(),
    {
        self.0
    }

    /// Bytes that are not written as one `u64` leave the hasher as it is.
    fn write(&mut self, _bytes: &[u8])
        ensures
            final(self).written() == old(self).written(),
    {
    }

    fn write_u64(&mut self, i: u64)
        ensures
            final(self).written() == i,
    {
        self.0 = i;
    }
}

impl BuildHasher for IdentityHasher {
    type Hasher = IdentityHasher;

    fn build_hasher(&self) -> (hasher: IdentityHasher)
        ensures
            hasher.written() == 0,
    {
        IdentityHasher(0)
    }
}

/// One shard: a `hashbrown::HashMap` from hashes to values. What it holds is
/// known to the verifier only through [`shard_entries`].
#[verifier::external_body]
pub struct Shard {
    inner: hashbrown::HashMap<u64, Vec<u8>, IdentityHasher>,
}

/// The bindings that a shard holds.
pub uninterp spec fn shard_entries(shard: &Shard) -> Map<u64, Seq<u8>>;

/// The bindings of an empty shard.
pub open spec fn no_bindings() -> Map<u64, Seq<u8>> {
    Map::empty()
}

/// Calls `hashbrown::HashMap::with_capacity_and_hasher`, which makes an empty
/// map with room for `capacity` bindings.
#[verifier::external_body]
fn shard_with_capacity(capacity: usize) -> (shard: Shard)
    ensures
        shard_entries(&shard) == no_bindings(),
{
    Shard { inner: hashbrown::HashMap::with_capacity_and_hasher(capacity, IdentityHasher(0)) }
}

/// Calls `hashbrown::HashMap::get`, which returns the value bound to the key,
/// if there is one.
#[verifier::external_body]
fn shard_get(shard: &Shard, key: u64) -> (found: Option<&Vec<u8>>)
    ensures
        match found {
            Some(value) => shard_entries(shard).contains_key(key) && shard_entries(shard)[key]
                == value@,
            None => !shard_entries(shard).contains_key(key),
        },
{
    shard.inner.get(&key)
}

/// Calls `hashbrown::HashMap::insert`, which binds the key to the value and
/// returns the value that was bound to it before, if there was one.
#[verifier::external_body]
fn shard_insert(shard: &mut Shard, key: u64, value: Vec<u8>) -> (previous: Option<Vec<u8>>)
    ensures
        shard_entries(final(shard)) == shard_entries(old(shard)).insert(key, value@),
        match previous {
            Some(earlier) => shard_entries(old(shard)).contains_key(key) && shard_entries(
                old(shard),
            )[key] == earlier@,
            None => !shard_entries(old(shard)).contains_key(key),
        },
{
    shard.inner.insert(key, value)
}

/// Calls `hashbrown::HashMap::remove`, which unbinds the key and returns the
/// value that was bound to it, if there was one.
#[verifier::external_body]
fn shard_remove(shard: &mut Shard, key: u64) -> (removed: Option<Vec<u8>>)
    ensures
        shard_entries(final(shard)) == shard_entries(old(shard)).remove(key),
        match removed {
            Some(earlier) => shard_entries(old(shard)).contains_key(key) && shard_entries(
                old(shard),
            )[key] == earlier@,
            None => !shard_entries(old(shard)).contains_key(key),
        },
{
    shard.inner.remove(&key)
}

/// Calls `hashbrown::HashMap::clear`, which removes every binding.
#[verifier::external_body]
fn shard_clear(shard: &mut Shard)
    ensures
        shard_entries(final(shard)) == no_bindings(),
{
    shard.inner.clear()
}

/// Calls `hashbrown::HashMap::len`, the number of bindings.
#[verifier::external_body]
fn shard_len(shard: &Shard) -> (n: usize)
    ensures
        n == shard_entries(shard).len(),
{
    shard.inner.len()
}

/// Calls `hashbrown::HashMap::is_empty`, which tells whether the map holds no
/// binding.
#[verifier::external_body]
fn shard_is_empty(shard: &Shard) -> (empty: bool)
    ensures
        empty == (shard_entries(shard) == no_bindings()),
{
    shard.inner.is_empty()
}

/// Hashes a key with `ahash::AHasher::default()`. The hasher is seeded once
/// per process, so nothing is claimed of the number that comes back.
#[verifier::external_body]
fn hash_key(key: &[u8]) -> u64 {
    let mut hasher = ahash::AHasher::default();
    key.hash(&mut hasher);
    hasher.finish()
}

/// The one handle of one shard of a table of `PARTITIONS` shards.
pub struct PartitionedHashMapHandle<const PARTITIONS: usize> {
    partition_id: u64,
    inner: Shard,
}

impl<const PARTITIONS: usize> View for PartitionedHashMapHandle<PARTITIONS> {
    type V = Map<u64, Seq<u8>>;

    closed spec fn view(&self) -> Map<u64, Seq<u8>> {
        shard_entries(&self.inner)
    }
}

impl<const PARTITIONS: usize> PartitionedHashMapHandle<PARTITIONS> {
    /// The number of the shard that the handle owns.
    pub closed spec fn partition(&self) -> nat {
        self.partition_id as nat
    }

    /// Whether the shard owns `key`: the table routes it to this shard.
    pub open spec fn owns(&self, key: u64) -> bool {
        partition_of(key, PARTITIONS as nat) == self.partition()
    }

    /// The routing invariant: the shard is one of the table's, and every key
    /// that it holds is routed to it.
    pub open spec fn wf(&self) -> bool {
        &&& is_power_of_two(PARTITIONS as nat)
        &&& self.partition() < PARTITIONS
        &&& self@.dom().finite()
        &&& forall|key: u64| #[trigger] self@.contains_key(key) ==> self.owns(key)
    }

    fn new(partition_id: u64, inner: Shard) -> (handle: Self)
        requires
            is_power_of_two(PARTITIONS as nat),
            partition_id < PARTITIONS,
            shard_entries(&inner) == no_bindings(),
        ensures
            handle.wf(),
            handle.partition() == partition_id,
            handle@ == no_bindings(),
    {
        PartitionedHashMapHandle { partition_id, inner }
    }

    /// The number of the shard that the handle owns.
    pub fn partition_id(&self) -> (id: u64)
        ensures
            id == self.partition(),
    {
        self.partition_id
    }

    /// Whether the table routes `key` to this shard.
    pub fn check_key(&self, key: u64) -> (owned: bool)
        requires
            self.wf(),
        ensures
            owned == self.owns(key),
    {
        partition_of_hash(key, PARTITIONS) as u64 == self.partition_id
    }

    /// The value bound to `key`, if there is one.
    pub fn get(&self, key: u64) -> (found: Option<&Vec<u8>>)
        ensures
            match found {
                Some(value) => self@.contains_key(key) && self@[key] == value@,
                None => !self@.contains_key(key),
            },
    {
        shard_get(&self.inner, key)
    }

    /// Binds `key` to `value` and returns the value that was bound to it
    /// before, if there was one.
    pub fn put(&mut self, key: u64, value: Vec<u8>) -> (previous: Option<Vec<u8>>)
        requires
            old(self).wf(),
            old(self).owns(key),
        ensures
            final(self).wf(),
            final(self).partition() == old(self).partition(),
            final(self)@ == old(self)@.insert(key, value@),
            match previous {
                Some(earlier) => old(self)@.contains_key(key) && old(self)@[key] == earlier@,
                None => !old(self)@.contains_key(key),
            },
    {
        shard_insert(&mut self.inner, key, value)
    }

    /// Unbinds `key` and returns the value that was bound to it, if there
    /// was one.
    pub fn delete(&mut self, key: u64) -> (removed: Option<Vec<u8>>)
        requires
            old(self).wf(),
        ensures
            final(self).wf(),
            final(self).partition() == old(self).partition(),
            final(self)@ == old(self)@.remove(key),
            match removed {
                Some(earlier) => old(self)@.contains_key(key) && old(self)@[key] == earlier@,
                None => !old(self)@.contains_key(key),
            },
    {
        shard_remove(&mut self.inner, key)
    }

    /// Removes every binding.
    pub fn clear(&mut self)
        requires
            old(self).wf(),
        ensures
            final(self).wf(),
            final(self).partition() == old(self).partition(),
            final(self)@ == no_bindings(),
    {
        shard_clear(&mut self.inner)
    }

    /// The number of bindings.
    pub fn len(&self) -> (n: usize)
        ensures
            n == self@.len(),
    {
        shard_len(&self.inner)
    }

    /// Whether the shard holds no binding.
    pub fn is_empty(&self) -> (empty: bool)
        ensures
            empty == (self@ == no_bindings()),
    {
        shard_is_empty(&self.inner)
    }
}

/// Every key that a shard holds is a key that the table routes to that
/// shard.
pub proof fn lemma_stored_keys_route_home<const PARTITIONS: usize>(
    handle: &PartitionedHashMapHandle<PARTITIONS>,
    key: u64,
)
    requires
        handle.wf(),
        handle@.contains_key(key),
    ensures
        partition_of(key, PARTITIONS as nat) == handle.partition(),
{
}

/// A table of `PARTITIONS` shards, before or after its handles have been
/// handed out.
pub struct PartitionedHashMap<const PARTITIONS: usize> {
    shards: Vec<Shard>,
}

impl<const PARTITIONS: usize> PartitionedHashMap<PARTITIONS> {
    /// Whether the handles of the table have been handed out.
    pub closed spec fn claimed(&self) -> bool {
        self.shards@.len() == 0
    }

    /// Whether the table is whole: it has a usable number of shards, and as
    /// long as its handles have not been handed out it holds each shard,
    /// empty.
    pub closed spec fn wf(&self) -> bool {
        &&& is_power_of_two(PARTITIONS as nat)
        &&& self.shards@.len() == 0 || self.shards@.len() == PARTITIONS
        &&& PARTITIONS <= u64::MAX
        &&& forall|i: int|
            0 <= i < self.shards@.len() ==> shard_entries(&#[trigger] self.shards@[i])
                == no_bindings()
    }

    /// A table whose shards have no room reserved.
    pub fn new() -> (table: Self)
        requires
            is_power_of_two(PARTITIONS as nat),
        ensures
            table.wf(),
            !table.claimed(),
    {
        Self::with_capacity(0)
    }

    /// A table each of whose shards has room for `capacity` bindings.
    pub fn with_capacity(capacity: usize) -> (table: Self)
        requires
            is_power_of_two(PARTITIONS as nat),
        ensures
            table.wf(),
            !table.claimed(),
    {
        let mut shards: Vec<Shard> = Vec::new();
        let mut i: usize = 0;
        while i < PARTITIONS
            invariant
                i <= PARTITIONS,
                shards@.len() == i,
                forall|j: int|
                    0 <= j < shards@.len() ==> shard_entries(&#[trigger] shards@[j]) == no_bindings(),
            decreases PARTITIONS - i,
        {
            shards.push(shard_with_capacity(capacity));
            i = i + 1;
        }
        PartitionedHashMap { shards }
    }

    /// Hashes `key` and tells which shard owns it: the number of the shard
    /// and the hash under which the shard stores the value.
    pub fn get_partition_and_key_hash(&self, key: &[u8]) -> (routed: (usize, u64))
        requires
            self.wf(),
        ensures
            routed.0 == partition_of(routed.1, PARTITIONS as nat),
            routed.0 < PARTITIONS,
    {
        let h = hash_key(key);
        (partition_of_hash(h, PARTITIONS), h)
    }

    /// Hands out the handles of all shards, the handle of shard `i` at index
    /// `i`. This can be done once.
    pub fn create_all_handles(map: &mut Self) -> (handles: Vec<
        Option<PartitionedHashMapHandle<PARTITIONS>>,
    >)
        requires
            old(map).wf(),
            !old(map).claimed(),
        ensures
            final(map).wf(),
            final(map).claimed(),
            handles@.len() == PARTITIONS,
            forall|i: int|
                0 <= i < PARTITIONS ==> {
                    &&& (#[trigger] handles@[i]) is Some
                    &&& handles@[i]->Some_0.wf()
                    &&& handles@[i]->Some_0.partition() == i
                    &&& handles@[i]->Some_0@ == no_bindings()
                },
    {
        let mut handles: Vec<Option<PartitionedHashMapHandle<PARTITIONS>>> = Vec::new();
        let mut claimed: usize = 0;
        while claimed < PARTITIONS
            invariant
                is_power_of_two(PARTITIONS as nat),
                PARTITIONS <= u64::MAX,
                claimed <= PARTITIONS,
                map.shards@.len() == PARTITIONS - claimed,
                handles@.len() == claimed,
                forall|i: int|
                    0 <= i < map.shards@.len() ==> shard_entries(&#[trigger] map.shards@[i])
                        == no_bindings(),
                forall|i: int|
                    0 <= i < handles@.len() ==> {
                        &&& (#[trigger] handles@[i]) is Some
                        &&& handles@[i]->Some_0.wf()
                        &&& handles@[i]->Some_0.partition() == i
                        &&& handles@[i]->Some_0@ == no_bindings()
                    },
            decreases PARTITIONS - claimed,
        {
            let shard = map.shards.pop().unwrap();
            handles.push(Some(PartitionedHashMapHandle::new(claimed as u64, shard)));
            claimed = claimed + 1;
        }
        handles
    }
}

} // verus!
