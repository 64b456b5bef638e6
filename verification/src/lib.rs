//! A sharded, prefix-driven in-memory key-value store: message model, wire
//! codec, per-client reordering, prefix application and the partitioned table.

pub mod channel;
pub mod dpdk;
pub mod log;
pub mod message;
pub mod prefix;
pub mod routing;
pub mod slab_list;
pub mod state;
pub mod sync_provider;
pub mod table;
pub mod workers;

use vstd::prelude::*;

verus! {

/// Sum of two sizes.
pub fn add(left: usize, right: usize) -> (sum: usize)
    requires
        left + right <= usize::MAX,
    ensures
        sum == left + right,
{
    left + right
}

} // verus!
