//! Laws of the egress stage.

use vstd::prelude::*;
use crate::message::ack::AckMessage;
use crate::message::wire::encode_payload;
use super::eth::{as_messages, packed_count};

verus! {

/// The size of the payload that carries the first `count` of `acks`.
pub open spec fn payload_size(acks: Seq<AckMessage<Seq<u8>>>, count: nat) -> nat {
    encode_payload(as_messages(acks.take(count as int))).len()
}

/// Packing goes on from where it stands: it takes no acknowledgement back
/// and none that is not there; it stops only where the next acknowledgement
/// does not fit; and whatever it has taken beyond the first fits the budget,
/// where what it had taken did.
pub proof fn lemma_packing_goes_on(acks: Seq<AckMessage<Seq<u8>>>, budget: nat, taken: nat)
    requires
        taken <= acks.len(),
        taken >= 2 ==> payload_size(acks, taken) <= budget,
    ensures
        taken <= packed_count(acks, budget, taken) <= acks.len(),
        taken < acks.len() && taken == 0 ==> packed_count(acks, budget, taken) >= 1,
        packed_count(acks, budget, taken) >= 2 ==> payload_size(
            acks,
            packed_count(acks, budget, taken),
        ) <= budget,
        packed_count(acks, budget, taken) < acks.len() ==> payload_size(
            acks,
            packed_count(acks, budget, taken) + 1,
        ) > budget,
    decreases acks.len() - taken,
{
    if taken < acks.len() {
        if !(taken > 0 && payload_size(acks, taken + 1) > budget) {
            lemma_packing_goes_on(acks, budget, taken + 1);
        }
    }
}

/// A payload holds as many acknowledgements as fit its budget: the first
/// one in any case; beyond the first only what fits; and it leaves an
/// acknowledgement behind only where that one would not fit.
pub proof fn lemma_payload_is_full(acks: Seq<AckMessage<Seq<u8>>>, budget: nat)
    ensures
        packed_count(acks, budget, 0) <= acks.len(),
        acks.len() > 0 ==> packed_count(acks, budget, 0) >= 1,
        packed_count(acks, budget, 0) >= 2 ==> payload_size(acks, packed_count(acks, budget, 0))
            <= budget,
        packed_count(acks, budget, 0) < acks.len() ==> payload_size(
            acks,
            packed_count(acks, budget, 0) + 1,
        ) > budget,
{
    lemma_packing_goes_on(acks, budget, 0);
}

} // verus!
