use thesis::routing::{get_partitioning_mask, partition_of_hash, usable_partition_count};
use std::hash::{BuildHasher, Hasher};
use thesis::table::{IdentityHasher, PartitionedHashMap};

#[test]
fn masks_cover_the_top_bits() {
    assert_eq!(get_partitioning_mask(1), 0);
    assert_eq!(get_partitioning_mask(2), 0x8000_0000_0000_0000);
    assert_eq!(get_partitioning_mask(4), 0xC000_0000_0000_0000);
    assert_eq!(get_partitioning_mask(8), 0xE000_0000_0000_0000);
    assert_eq!(get_partitioning_mask(256), 0xFF00_0000_0000_0000);
    assert_eq!(get_partitioning_mask(1 << 63), 0xFFFF_FFFF_FFFF_FFFE);
}

#[test]
fn partitions_are_the_top_bits() {
    assert_eq!(partition_of_hash(0, 1), 0);
    assert_eq!(partition_of_hash(u64::MAX, 1), 0);
    assert_eq!(partition_of_hash(0, 4), 0);
    assert_eq!(partition_of_hash(0x3FFF_FFFF_FFFF_FFFF, 4), 0);
    assert_eq!(partition_of_hash(0x4000_0000_0000_0000, 4), 1);
    assert_eq!(partition_of_hash(0x8000_0000_0000_0000, 4), 2);
    assert_eq!(partition_of_hash(0xC000_0000_0000_0000, 4), 3);
    assert_eq!(partition_of_hash(u64::MAX, 4), 3);
    assert_eq!(partition_of_hash(0xAB00_0000_0000_0001, 256), 0xAB);
    for hash in [0u64, 1, 0x1234_5678_9ABC_DEF0, u64::MAX] {
        let mask = get_partitioning_mask(16);
        assert_eq!(partition_of_hash(hash, 16) as u64, (hash & mask) >> mask.trailing_zeros());
    }
}

#[test]
fn only_powers_of_two_are_usable() {
    assert!(usable_partition_count(1));
    assert!(usable_partition_count(2));
    assert!(usable_partition_count(1024));
    assert!(usable_partition_count(1 << 63));
    assert!(!usable_partition_count(0));
    assert!(!usable_partition_count(3));
    assert!(!usable_partition_count(6));
    assert!(!usable_partition_count(1000));
}

#[test]
fn handles_are_handed_out_in_order() {
    let mut table = PartitionedHashMap::<4>::new();
    let handles = PartitionedHashMap::create_all_handles(&mut table);
    assert_eq!(handles.len(), 4);
    for (i, handle) in handles.iter().enumerate() {
        let handle = handle.as_ref().unwrap();
        assert_eq!(handle.partition_id(), i as u64);
        assert!(handle.is_empty());
        assert_eq!(handle.len(), 0);
    }
}

#[test]
fn handle_operations() {
    let mut table = PartitionedHashMap::<2>::with_capacity(16);
    let mut handles = PartitionedHashMap::create_all_handles(&mut table);
    let mut high = handles.pop().unwrap().unwrap();
    let mut low = handles.pop().unwrap().unwrap();
    assert!(low.check_key(5));
    assert!(!low.check_key(u64::MAX));
    assert!(high.check_key(u64::MAX));
    assert!(!high.check_key(5));

    assert_eq!(low.get(5), None);
    assert_eq!(low.put(5, vec![1]), None);
    assert_eq!(low.get(5), Some(&vec![1]));
    assert_eq!(low.put(5, vec![2, 3]), Some(vec![1]));
    assert_eq!(low.get(5), Some(&vec![2, 3]));
    assert_eq!(low.put(6, vec![]), None);
    assert_eq!(low.len(), 2);
    assert!(!low.is_empty());
    assert_eq!(low.delete(5), Some(vec![2, 3]));
    assert_eq!(low.delete(5), None);
    assert_eq!(low.get(5), None);
    assert_eq!(low.len(), 1);
    low.clear();
    assert_eq!(low.len(), 0);
    assert!(low.is_empty());
    assert_eq!(low.get(6), None);

    assert_eq!(high.put(u64::MAX, vec![9]), None);
    assert_eq!(high.len(), 1);
    assert_eq!(low.len(), 0);
}

#[test]
fn keys_route_to_the_partition_of_their_hash() {
    let table = PartitionedHashMap::<8>::new();
    for i in 0..200u32 {
        let key = i.to_le_bytes();
        let (partition, hash) = table.get_partition_and_key_hash(&key);
        assert!(partition < 8);
        assert_eq!(partition, partition_of_hash(hash, 8));
        let (again, same_hash) = table.get_partition_and_key_hash(&key);
        assert_eq!((again, same_hash), (partition, hash));
    }
    let one = PartitionedHashMap::<1>::new();
    assert_eq!(one.get_partition_and_key_hash(b"anything").0, 0);
}

#[test]
fn hashing_tells_keys_apart() {
    let table = PartitionedHashMap::<4>::new();
    let a = table.get_partition_and_key_hash(b"a").1;
    let b = table.get_partition_and_key_hash(b"b").1;
    assert_ne!(a, b);
}

#[test]
fn identity_hasher_returns_what_was_written() {
    let mut hasher = IdentityHasher::default();
    assert_eq!(hasher.finish(), 0);
    hasher.write_u64(0xDEAD_BEEF);
    assert_eq!(hasher.finish(), 0xDEAD_BEEF);
    hasher.write(&[1, 2, 3]);
    assert_eq!(hasher.finish(), 0xDEAD_BEEF);
    hasher.write_u64(7);
    assert_eq!(hasher.finish(), 7);
    assert_eq!(hasher.build_hasher().finish(), 0);
    assert_eq!(IdentityHasher::default().hash_one(42u64), 42);
}
