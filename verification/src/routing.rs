//! Routing of key hashes to partitions.
//!
//! A table of `P` partitions, `P` a power of two, sends a 64-bit hash to the
//! partition that its `log2 P` highest bits spell. Read as a number, that is
//! the hash divided by `2^64 / P`.

use vstd::prelude::*;

verus! {

/// Whether `partitions` is a power of two that a table can have: a divisor
/// of `2^63`.
pub open spec fn is_power_of_two(partitions: nat) -> bool {
    partitions > 0 && 0x8000_0000_0000_0000nat % partitions == 0
}

/// How many hashes each of `partitions` partitions owns: `2^64 / partitions`.
pub open spec fn stride(partitions: nat) -> nat {
    2 * (0x8000_0000_0000_0000nat / partitions)
}

/// The partition that owns `hash` in a table of `partitions` partitions.
pub open spec fn partition_of(hash: u64, partitions: nat) -> nat {
    hash as nat / stride(partitions)
}

/// The bits of a hash that select its partition: the `log2 partitions`
/// highest ones.
pub open spec fn partitioning_mask(partitions: nat) -> nat {
    (0x1_0000_0000_0000_0000nat - stride(partitions)) as nat
}

/// The partitions share the hashes evenly, and every hash has its partition.
pub proof fn lemma_partitions_cover(hash: u64, partitions: nat)
    requires
        is_power_of_two(partitions),
    ensures
        stride(partitions) * partitions == 0x1_0000_0000_0000_0000nat,
        1 <= stride(partitions) <= 0x1_0000_0000_0000_0000nat,
        partitions == 1 ==> stride(partitions) == 0x1_0000_0000_0000_0000nat,
        partitions >= 2 ==> stride(partitions) <= 0x8000_0000_0000_0000nat,
        partition_of(hash, partitions) < partitions,
{
    let half = 0x8000_0000_0000_0000int;
    let p = partitions as int;
    vstd::arithmetic::div_mod::lemma_fundamental_div_mod(half, p);
    let q = half / p;
    assert(p * q == half);
    assert(q >= 1) by (nonlinear_arith)
        requires
            p * q == half,
            p > 0,
            half > 0,
    ;
    assert((2 * q) * p == 2 * half) by (nonlinear_arith)
        requires
            p * q == half,
    ;
    assert(2 * q <= 2 * half) by (nonlinear_arith)
        requires
            (2 * q) * p == 2 * half,
            p >= 1,
            q >= 1,
    ;
    assert(p == 1 ==> 2 * q == 2 * half) by (nonlinear_arith)
        requires
            (2 * q) * p == 2 * half,
    ;
    assert(p >= 2 ==> 2 * q <= half) by (nonlinear_arith)
        requires
            (2 * q) * p == 2 * half,
            q >= 1,
    ;
    vstd::arithmetic::div_mod::lemma_multiply_divide_lt(hash as int, 2 * q, p);
}

/// Whether `partitions` is a power of two that a table can have.
pub fn usable_partition_count(partitions: usize) -> (usable: bool)
    ensures
        usable == is_power_of_two(partitions as nat),
{
    partitions != 0 && 0x8000_0000_0000_0000u64 % (partitions as u64) == 0
}

/// The bits of a hash that select its partition.
pub fn get_partitioning_mask(partitions: usize) -> (mask: u64)
    requires
        is_power_of_two(partitions as nat),
    ensures
        mask == partitioning_mask(partitions as nat),
{
    proof {
        lemma_partitions_cover(0, partitions as nat);
    }
    if partitions == 1 {
        0
    } else {
        let each: u64 = 2 * (0x8000_0000_0000_0000u64 / (partitions as u64));
        assert(each == stride(partitions as nat));
        u64::MAX - each + 1
    }
}

/// The partition that owns `hash`.
pub fn partition_of_hash(hash: u64, partitions: usize) -> (partition: usize)
    requires
        is_power_of_two(partitions as nat),
    ensures
        partition == partition_of(hash, partitions as nat),
        partition < partitions,
{
    proof {
        lemma_partitions_cover(hash, partitions as nat);
    }
    if partitions == 1 {
        0
    } else {
        let each: u64 = 2 * (0x8000_0000_0000_0000u64 / (partitions as u64));
        (hash / each) as usize
    }
}

/// The partition of a hash is what its masked bits spell: in a table of
/// `2^bits` partitions the mask covers the `bits` highest bits of the hash,
/// and the partition is the masked hash shifted down by the other `64 - bits`
/// bits.
pub proof fn lemma_partition_is_masked_shift(hash: u64, bits: u64)
    requires
        1 <= bits <= 63,
    ensures
        is_power_of_two((1u64 << bits) as nat),
        partitioning_mask((1u64 << bits) as nat) == (((1u64 << bits) - 1) as u64) << ((64 - bits) as u64),
        partition_of(hash, (1u64 << bits) as nat) == (hash & (((1u64 << bits) - 1) as u64) << ((64
            - bits) as u64)) >> ((64 - bits) as u64),
{
    let partitions: u64 = 1u64 << bits;
    let shift: u64 = (64 - bits) as u64;
    let each: u64 = 1u64 << shift;
    let low: u64 = (partitions - 1) as u64;
    assert(partitions >= 2 && 0x8000_0000_0000_0000u64 % partitions == 0 && 2 * (
    0x8000_0000_0000_0000u64 / partitions) == each && each >= 2) by (bit_vector)
        requires
            1 <= bits <= 63,
            partitions == 1u64 << bits,
            shift == 64 - bits,
            each == 1u64 << shift,
    ;
    assert(stride(partitions as nat) == each);
    assert(low << shift == (0xffff_ffff_ffff_ffffu64 - each) + 1) by (bit_vector)
        requires
            1 <= bits <= 63,
            partitions == 1u64 << bits,
            shift == 64 - bits,
            each == 1u64 << shift,
            low == partitions - 1,
    ;
    assert((hash & (low << shift)) >> shift == hash >> shift) by (bit_vector)
        requires
            1 <= bits <= 63,
            partitions == 1u64 << bits,
            shift == 64 - bits,
            low == partitions - 1,
    ;
    vstd::bits::lemma_u64_shr_is_div(hash, shift);
    vstd::bits::lemma_u64_pow2_no_overflow(shift as nat);
    vstd::bits::lemma_u64_shl_is_mul(1, shift);
    assert(each == vstd::arithmetic::power2::pow2(shift as nat));
}

} // verus!
