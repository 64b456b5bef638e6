//! Laws of the apply stage.

use vstd::prelude::*;
use crate::message::ack::AckMessage;
use super::pipeline::{
    acks_for_all, bound_for, entries_after_all, HashedLogMessageView, RoutedMessage,
};

verus! {

/// The messages bound for a partition among two runs put together are those
/// among the first followed by those among the second.
pub proof fn lemma_bound_for_concat(
    first: Seq<RoutedMessage>,
    second: Seq<RoutedMessage>,
    partition: nat,
)
    ensures
        bound_for(first + second, partition) == bound_for(first, partition) + bound_for(
            second,
            partition,
        ),
    decreases second.len(),
{
    if second.len() == 0 {
        assert(first + second =~= first);
        assert(bound_for(first, partition) + bound_for(second, partition) =~= bound_for(
            first,
            partition,
        ));
    } else {
        lemma_bound_for_concat(first, second.drop_last(), partition);
        assert((first + second).drop_last() =~= first + second.drop_last());
        assert((first + second).last() == second.last());
        assert(bound_for(first + second, partition) =~= bound_for(first, partition) + bound_for(
            second,
            partition,
        ));
    }
}

/// Executing two runs one after the other leaves the store as executing them
/// as one run does.
pub proof fn lemma_entries_after_parts(
    first: Seq<HashedLogMessageView>,
    second: Seq<HashedLogMessageView>,
    entries: Map<u64, Seq<u8>>,
)
    ensures
        entries_after_all(first + second, entries) == entries_after_all(
            second,
            entries_after_all(first, entries),
        ),
    decreases second.len(),
{
    if second.len() == 0 {
        assert(first + second =~= first);
    } else {
        lemma_entries_after_parts(first, second.drop_last(), entries);
        assert((first + second).drop_last() =~= first + second.drop_last());
        assert((first + second).last() == second.last());
    }
}

/// Executing two runs one after the other gives the acknowledgements that
/// executing them as one run gives.
pub proof fn lemma_acks_of_parts(
    first: Seq<HashedLogMessageView>,
    second: Seq<HashedLogMessageView>,
    entries: Map<u64, Seq<u8>>,
)
    ensures
        acks_for_all(first + second, entries) == acks_for_all(first, entries) + acks_for_all(
            second,
            entries_after_all(first, entries),
        ),
    decreases second.len(),
{
    let between = entries_after_all(first, entries);
    if second.len() == 0 {
        assert(first + second =~= first);
        assert(acks_for_all(first, entries) + acks_for_all(second, between) =~= acks_for_all(
            first,
            entries,
        ));
    } else {
        lemma_acks_of_parts(first, second.drop_last(), entries);
        lemma_entries_after_parts(first, second.drop_last(), entries);
        assert((first + second).drop_last() =~= first + second.drop_last());
        assert((first + second).last() == second.last());
        assert(acks_for_all(first + second, entries) =~= acks_for_all(first, entries)
            + acks_for_all(second, between));
    }
}

/// How the committed messages of a client reach the stage does not matter:
/// whether a run of routed messages is applied at once or in two parts, one
/// after the other, the shard answers the same and holds the same afterwards.
pub proof fn lemma_apply_in_parts(
    first: Seq<RoutedMessage>,
    second: Seq<RoutedMessage>,
    partition: nat,
    entries: Map<u64, Seq<u8>>,
)
    ensures
        ({
            let between = entries_after_all(bound_for(first, partition), entries);
            &&& acks_for_all(bound_for(first + second, partition), entries) == acks_for_all(
                bound_for(first, partition),
                entries,
            ) + acks_for_all(bound_for(second, partition), between)
            &&& entries_after_all(bound_for(first + second, partition), entries)
                == entries_after_all(bound_for(second, partition), between)
        }),
{
    lemma_bound_for_concat(first, second, partition);
    lemma_acks_of_parts(bound_for(first, partition), bound_for(second, partition), entries);
    lemma_entries_after_parts(bound_for(first, partition), bound_for(second, partition), entries);
}

/// Each message that is executed is answered, and by an acknowledgement that
/// names its client and its id: the answers to a run of messages are as many
/// as the messages, and the `i`-th one answers the `i`-th message.
pub proof fn lemma_every_message_is_answered(
    msgs: Seq<HashedLogMessageView>,
    entries: Map<u64, Seq<u8>>,
)
    ensures
        acks_for_all(msgs, entries).len() == msgs.len(),
        forall|i: int|
            0 <= i < msgs.len() ==> {
                &&& (#[trigger] acks_for_all(msgs, entries)[i]).client_id == msgs[i].client_id
                &&& acks_for_all(msgs, entries)[i].message_id == msgs[i].message_id
            },
    decreases msgs.len(),
{
    if msgs.len() > 0 {
        lemma_every_message_is_answered(msgs.drop_last(), entries);
        let acks: Seq<AckMessage<Seq<u8>>> = acks_for_all(msgs, entries);
        assert forall|i: int| 0 <= i < msgs.len() implies {
            &&& (#[trigger] acks[i]).client_id == msgs[i].client_id
            &&& acks[i].message_id == msgs[i].message_id
        } by {
            if i < msgs.len() - 1 {
                assert(acks[i] == acks_for_all(msgs.drop_last(), entries)[i]);
                assert(msgs[i] == msgs.drop_last()[i]);
            }
        }
    }
}

} // verus!
