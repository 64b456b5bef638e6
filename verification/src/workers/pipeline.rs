//! The apply stage: executes committed messages against one shard.

use vstd::prelude::*;
use std::collections::VecDeque;
use crate::channel::{
    enqueue_all, flush, ring_is_abandoned, ring_is_empty, ring_pop, ring_read_chunk, ring_readable,
};
use crate::message::ack::{AckMessage, AckMessageExtensions};
use crate::message::client_message::{ClientLogMessage, ClientMessageOperation};
use crate::prefix::{dominates, Prefix};
use crate::routing::partition_of;
use crate::state::State;
use crate::table::PartitionedHashMap;
use super::order_messages::{TurnReport, TurnStatus};
use super::parse::ByteLogMessage;

verus! {

/// A client operation whose key has been replaced by its hash.
pub type HashedLogMessage = ClientLogMessage<u64, Vec<u8>>;

/// The mathematical value of a [`HashedLogMessage`].
pub type HashedLogMessageView = ClientLogMessage<u64, Seq<u8>>;

/// The value bound to `key` in `entries`, if there is one.
pub open spec fn binding(entries: Map<u64, Seq<u8>>, key: u64) -> Option<Seq<u8>> {
    if entries.contains_key(key) {
        Some(entries[key])
    } else {
        None
    }
}

/// The answer to `msg` where the store holds `entries`: a `Get` is answered
/// with the binding of its key, a `Put` or a `Delete` with the binding that
/// it replaces or removes.
pub open spec fn ack_for(msg: HashedLogMessageView, entries: Map<u64, Seq<u8>>) -> AckMessage<
    Seq<u8>,
> {
    AckMessage {
        client_id: msg.client_id,
        message_id: msg.message_id,
        extension: match msg.operation {
            ClientMessageOperation::Get { key } => AckMessageExtensions::Get(binding(entries, key)),
            ClientMessageOperation::Put { key, value } => AckMessageExtensions::Put(
                binding(entries, key),
            ),
            ClientMessageOperation::Delete { key } => AckMessageExtensions::Delete(
                binding(entries, key),
            ),
        },
    }
}

/// What the store holds after `op`.
pub open spec fn entries_after(
    op: ClientMessageOperation<u64, Seq<u8>>,
    entries: Map<u64, Seq<u8>>,
) -> Map<u64, Seq<u8>> {
    match op {
        ClientMessageOperation::Get { key } => entries,
        ClientMessageOperation::Put { key, value } => entries.insert(key, value),
        ClientMessageOperation::Delete { key } => entries.remove(key),
    }
}

/// Executes one message against the store and answers it.
pub fn apply_message_to_state<S: State>(msg: HashedLogMessage, state: &mut S) -> (ack: AckMessage<
    Vec<u8>,
>)
    requires
        old(state).wf(),
        msg.operation is Put ==> old(state).admits(msg.operation.spec_key()),
    ensures
        final(state).wf(),
        forall|k: u64| final(state).admits(k) == old(state).admits(k),
        ack.deep_view() == ack_for(msg.deep_view(), old(state).entries()),
        final(state).entries() == entries_after(msg.deep_view().operation, old(state).entries()),
{
    let client_id = msg.client_id;
    let message_id = msg.message_id;
    match msg.operation {
        ClientMessageOperation::Get { key } => {
            let found = match state.get(&key) {
                Some(value) => {
                    let copy = value.clone();
                    assert(copy@ =~= value@);
                    assert(copy.deep_view() =~= copy@);
                    Some(copy)
                },
                None => None,
            };
            AckMessage { client_id, message_id, extension: AckMessageExtensions::Get(found) }
        },
        ClientMessageOperation::Put { key, value } => {
            assert(value.deep_view() =~= value@);
            let previous = state.put(key, value);
            proof {
                if previous is Some {
                    assert(previous->Some_0.deep_view() =~= previous->Some_0@);
                }
            }
            AckMessage { client_id, message_id, extension: AckMessageExtensions::Put(previous) }
        },
        ClientMessageOperation::Delete { key } => {
            let removed = state.delete(&key);
            proof {
                if removed is Some {
                    assert(removed->Some_0.deep_view() =~= removed->Some_0@);
                }
            }
            AckMessage { client_id, message_id, extension: AckMessageExtensions::Delete(removed) }
        },
    }
}

/// A message on its way to a shard: the shard that owns its key, and the
/// message with the key replaced by its hash.
pub struct RoutedMessage {
    pub partition: usize,
    pub message: HashedLogMessage,
}

/// Whether `routed` is `msg` with its key replaced by some hash, bound for
/// the partition that owns that hash among `partitions`.
pub open spec fn is_routing_of(routed: RoutedMessage, msg: ByteLogMessage, partitions: nat) -> bool {
    &&& routed.message.client_id == msg.client_id
    &&& routed.message.message_id == msg.message_id
    &&& routed.partition == partition_of(routed.message.operation.spec_key(), partitions)
    &&& match (routed.message.operation, msg.operation) {
        (ClientMessageOperation::Get { key: h }, ClientMessageOperation::Get { key }) => true,
        (
            ClientMessageOperation::Put { key: h, value: v },
            ClientMessageOperation::Put { key, value },
        ) => v == value,
        (ClientMessageOperation::Delete { key: h }, ClientMessageOperation::Delete { key }) => true,
        _ => false,
    }
}

/// Hashes the key of a message and finds the shard that owns it.
pub fn route_message<const PARTITIONS: usize>(
    router: &PartitionedHashMap<PARTITIONS>,
    msg: ByteLogMessage,
) -> (routed: RoutedMessage)
    requires
        router.wf(),
    ensures
        is_routing_of(routed, msg, PARTITIONS as nat),
        routed.partition < PARTITIONS,
{
    let client_id = msg.client_id;
    let message_id = msg.message_id;
    match msg.operation {
        ClientMessageOperation::Get { key } => {
            let (partition, hash) = router.get_partition_and_key_hash(key.as_slice());
            RoutedMessage {
                partition,
                message: ClientLogMessage {
                    client_id,
                    message_id,
                    operation: ClientMessageOperation::Get { key: hash },
                },
            }
        },
        ClientMessageOperation::Put { key, value } => {
            let (partition, hash) = router.get_partition_and_key_hash(key.as_slice());
            RoutedMessage {
                partition,
                message: ClientLogMessage {
                    client_id,
                    message_id,
                    operation: ClientMessageOperation::Put { key: hash, value },
                },
            }
        },
        ClientMessageOperation::Delete { key } => {
            let (partition, hash) = router.get_partition_and_key_hash(key.as_slice());
            RoutedMessage {
                partition,
                message: ClientLogMessage {
                    client_id,
                    message_id,
                    operation: ClientMessageOperation::Delete { key: hash },
                },
            }
        },
    }
}

/// The messages among `routed` that are bound for `partition`, in their
/// order.
pub open spec fn bound_for(routed: Seq<RoutedMessage>, partition: nat) -> Seq<HashedLogMessageView>
    decreases routed.len(),
{
    if routed.len() == 0 {
        Seq::empty()
    } else {
        let before = bound_for(routed.drop_last(), partition);
        if routed.last().partition == partition {
            before.push(routed.last().message.deep_view())
        } else {
            before
        }
    }
}

/// What the store holds after the messages of `msgs` have been executed one
/// after the other.
pub open spec fn entries_after_all(
    msgs: Seq<HashedLogMessageView>,
    entries: Map<u64, Seq<u8>>,
) -> Map<u64, Seq<u8>>
    decreases msgs.len(),
{
    if msgs.len() == 0 {
        entries
    } else {
        entries_after(msgs.last().operation, entries_after_all(msgs.drop_last(), entries))
    }
}

/// The answers to the messages of `msgs`, executed one after the other on a
/// store that holds `entries` at first.
pub open spec fn acks_for_all(msgs: Seq<HashedLogMessageView>, entries: Map<u64, Seq<u8>>) -> Seq<
    AckMessage<Seq<u8>>,
>
    decreases msgs.len(),
{
    if msgs.len() == 0 {
        Seq::empty()
    } else {
        acks_for_all(msgs.drop_last(), entries).push(
            ack_for(msgs.last(), entries_after_all(msgs.drop_last(), entries)),
        )
    }
}

/// The progress of the apply stage of one shard through the commit prefixes.
pub struct ApplyStage<const NUM_CLIENTS: usize> {
    started: bool,
    target: Prefix<NUM_CLIENTS>,
    consumed: [u32; NUM_CLIENTS],
}

impl<const NUM_CLIENTS: usize> ApplyStage<NUM_CLIENTS> {
    /// Whether a prefix has been accepted yet.
    pub closed spec fn started(&self) -> bool {
        self.started
    }

    /// The prefix accepted last; before the first one, the prefix that
    /// commits nothing.
    pub closed spec fn target(&self) -> Prefix<NUM_CLIENTS> {
        self.target
    }

    /// How many messages of client `c` the stage has consumed since it was
    /// made.
    pub closed spec fn consumed(&self, c: int) -> u32 {
        self.consumed[c]
    }

    /// The stage never consumes more of a client than the accepted prefix
    /// commits.
    pub open spec fn wf(&self) -> bool {
        forall|c: int| 0 <= c < NUM_CLIENTS ==> #[trigger] self.consumed(c) <= self.target().states[c].0
    }

    /// How many committed messages of client `c` are yet to be consumed.
    pub open spec fn remaining(&self, c: int) -> int {
        self.target().states[c].0 - self.consumed(c)
    }

    /// Whether the stage has finished the accepted prefix: of every client it
    /// has consumed exactly as many messages as the prefix commits.
    pub open spec fn finished(&self) -> bool {
        forall|c: int| 0 <= c < NUM_CLIENTS ==> #[trigger] self.consumed(c) == self.target().states[c].0
    }

    /// Whether the stage takes up `p`: it has finished what it had accepted,
    /// `p` commits at least as much for every client, and the id of `p` is
    /// higher than that of the prefix accepted last, if there was one.
    pub open spec fn accepts(&self, p: Prefix<NUM_CLIENTS>) -> bool {
        &&& self.finished()
        &&& !self.started() || p.id > self.target().id
        &&& dominates(p.states, self.target().states)
    }

    /// A stage that has consumed nothing and accepted no prefix.
    pub fn new() -> (stage: Self)
        ensures
            stage.wf(),
            stage.finished(),
            !stage.started(),
            stage.target().id == 0,
            forall|c: int| 0 <= c < NUM_CLIENTS ==> (#[trigger] stage.target().states[c]).0 == 0,
            forall|c: int| 0 <= c < NUM_CLIENTS ==> #[trigger] stage.consumed(c) == 0,
    {
        ApplyStage { started: false, target: Prefix::new(0), consumed: [0u32;NUM_CLIENTS] }
    }

    /// How many messages of client `client` the stage has consumed since it
    /// was made.
    pub fn messages_consumed(&self, client: usize) -> (count: u32)
        requires
            client < NUM_CLIENTS,
        ensures
            count == self.consumed(client as int),
    {
        self.consumed[client]
    }

    /// The prefix accepted last.
    pub fn current_prefix(&self) -> (prefix: Prefix<NUM_CLIENTS>)
        ensures
            prefix == self.target(),
    {
        self.target
    }

    /// Whether the stage has finished the accepted prefix.
    pub fn is_finished(&self) -> (done: bool)
        requires
            self.wf(),
        ensures
            done == self.finished(),
    {
        self.demand().is_none()
    }

    /// What the stage needs next: the first client of which committed
    /// messages are yet to be consumed, and how many of them; nothing once
    /// the accepted prefix is finished.
    pub fn demand(&self) -> (wanted: Option<(usize, u32)>)
        requires
            self.wf(),
        ensures
            match wanted {
                Some((client, count)) => {
                    &&& client < NUM_CLIENTS
                    &&& count > 0
                    &&& count == self.remaining(client as int)
                    &&& forall|c: int| 0 <= c < client ==> #[trigger] self.remaining(c) == 0
                },
                None => self.finished(),
            },
    {
        let mut c: usize = 0;
        while c < NUM_CLIENTS
            invariant
                self.wf(),
                c <= NUM_CLIENTS,
                forall|d: int| 0 <= d < c ==> #[trigger] self.consumed(d) == self.target().states[d].0,
            decreases NUM_CLIENTS - c,
        {
            assert(self.consumed(c as int) <= self.target().states[c as int].0);
            if self.consumed[c] != self.target.states[c].0 {
                return Some((c, self.target.states[c].0 - self.consumed[c]));
            }
            c = c + 1;
        }
        None
    }

    /// Offers the next commit prefix. It is taken up where the stage accepts
    /// it; otherwise it is dropped and the stage stays as it is.
    pub fn offer_prefix(&mut self, p: Prefix<NUM_CLIENTS>) -> (accepted: bool)
        requires
            old(self).wf(),
        ensures
            final(self).wf(),
            accepted == old(self).accepts(p),
            accepted ==> final(self).started() && final(self).target() == p,
            !accepted ==> final(self).started() == old(self).started() && final(self).target()
                == old(self).target(),
            forall|c: int| 0 <= c < NUM_CLIENTS ==> final(self).consumed(c) == old(self).consumed(c),
    {
        if !self.is_finished() {
            return false;
        }
        if self.started && p.id <= self.target.id {
            return false;
        }
        if !self.target.is_dominated_by(&p) {
            return false;
        }
        self.started = true;
        self.target = p;
        proof {
            assert forall|c: int| 0 <= c < NUM_CLIENTS implies #[trigger] self.consumed(c)
                <= self.target().states[c].0 by {
                assert(old(self).consumed(c) == old(self).target().states[c].0);
                assert(old(self).target().states[c].0 <= p.states[c].0);
            }
        }
        true
    }

    /// Executes the next messages of client `client_id`, the first client of
    /// which committed messages are yet to be consumed: those bound for
    /// `partition` are executed against `state`, in their order, and
    /// answered; the others are passed over. Each counts as consumed.
    pub fn apply_messages_for_client_id<S: State>(
        &mut self,
        client_id: usize,
        partition: usize,
        routed: Vec<RoutedMessage>,
        state: &mut S,
    ) -> (acks: Vec<AckMessage<Vec<u8>>>)
        requires
            old(self).wf(),
            old(state).wf(),
            client_id < NUM_CLIENTS,
            forall|c: int| 0 <= c < client_id ==> #[trigger] old(self).remaining(c) == 0,
            routed@.len() <= old(self).remaining(client_id as int),
            forall|i: int|
                0 <= i < routed@.len() && (#[trigger] routed@[i]).partition == partition ==> old(
                    state,
                ).admits(routed@[i].message.operation.spec_key()),
        ensures
            final(self).wf(),
            final(state).wf(),
            forall|k: u64| final(state).admits(k) == old(state).admits(k),
            final(self).started() == old(self).started(),
            final(self).target() == old(self).target(),
            final(self).consumed(client_id as int) == old(self).consumed(client_id as int)
                + routed@.len(),
            forall|c: int|
                0 <= c < NUM_CLIENTS && c != client_id ==> final(self).consumed(c) == old(
                    self,
                ).consumed(c),
            acks.deep_view() == acks_for_all(
                bound_for(routed@, partition as nat),
                old(state).entries(),
            ),
            final(state).entries() == entries_after_all(
                bound_for(routed@, partition as nat),
                old(state).entries(),
            ),
    {
        let ghost all = routed@;
        let ghost entries = state.entries();
        let count = routed.len();
        let mut acks: Vec<AckMessage<Vec<u8>>> = Vec::new();
        assert(all.take(0) =~= Seq::<RoutedMessage>::empty());
        assert(acks.deep_view() =~= acks_for_all(bound_for(all.take(0), partition as nat), entries));
        for item in it: routed
            invariant
                it.seq() == all,
                state.wf(),
                forall|k: u64| state.admits(k) == old(state).admits(k),
                forall|i: int|
                    0 <= i < all.len() && (#[trigger] all[i]).partition == partition ==> old(
                        state,
                    ).admits(all[i].message.operation.spec_key()),
                acks.deep_view() == acks_for_all(
                    bound_for(all.take(it.index() as int), partition as nat),
                    entries,
                ),
                state.entries() == entries_after_all(
                    bound_for(all.take(it.index() as int), partition as nat),
                    entries,
                ),
        {
            let ghost i = it.index() as int;
            proof {
                assert(all.take(i + 1).drop_last() =~= all.take(i));
                assert(all.take(i + 1).last() == item);
                assert(all[i] == item);
            }
            if item.partition == partition {
                let ghost before = acks.deep_view();
                let ghost earlier = bound_for(all.take(i), partition as nat);
                let ack = apply_message_to_state(item.message, state);
                let ghost answer = ack.deep_view();
                acks.push(ack);
                proof {
                    let now = bound_for(all.take(i + 1), partition as nat);
                    assert(now == earlier.push(item.message.deep_view()));
                    assert(now.drop_last() =~= earlier);
                    assert(acks.deep_view() =~= before.push(answer));
                }
            }
        }
        assert(all.take(all.len() as int) =~= all);
        proof {
            assert(self.consumed(client_id as int) + count <= self.target().states[client_id as int].0);
        }
        self.consumed[client_id] = self.consumed[client_id] + count as u32;
        proof {
            assert forall|c: int| 0 <= c < NUM_CLIENTS implies #[trigger] self.consumed(c)
                <= self.target().states[c].0 by {
                if c != client_id {
                    assert(self.consumed(c) == old(self).consumed(c));
                }
            }
        }
        acks
    }
}

/// Once a stage has finished a prefix, it has consumed of every client
/// exactly as many messages as the prefix commits.
pub proof fn lemma_finished_prefix_is_consumed<const NUM_CLIENTS: usize>(
    stage: ApplyStage<NUM_CLIENTS>,
    client: int,
)
    requires
        stage.wf(),
        stage.finished(),
        0 <= client < NUM_CLIENTS,
    ensures
        stage.consumed(client) == stage.target().states[client].0,
        stage.remaining(client) == 0,
{
}

/// A prefix is taken up at most once: a stage whose accepted prefix is `p`
/// does not accept `p` again, however far it has come with it.
pub proof fn lemma_prefix_is_accepted_once<const NUM_CLIENTS: usize>(
    stage: ApplyStage<NUM_CLIENTS>,
    p: Prefix<NUM_CLIENTS>,
)
    requires
        stage.started(),
        stage.target() == p,
    ensures
        !stage.accepts(p),
{
}

/// Hashes the keys of a run of messages and finds their shards.
pub fn route_messages<const PARTITIONS: usize>(
    router: &PartitionedHashMap<PARTITIONS>,
    msgs: Vec<ByteLogMessage>,
) -> (routed: Vec<RoutedMessage>)
    requires
        router.wf(),
    ensures
        routed@.len() == msgs@.len(),
        forall|i: int|
            0 <= i < routed@.len() ==> is_routing_of(
                #[trigger] routed@[i],
                msgs@[i],
                PARTITIONS as nat,
            ),
{
    let ghost all = msgs@;
    let mut routed: Vec<RoutedMessage> = Vec::new();
    for msg in it: msgs
        invariant
            it.seq() == all,
            router.wf(),
            routed@.len() == it.index(),
            forall|i: int|
                0 <= i < routed@.len() ==> is_routing_of(
                    #[trigger] routed@[i],
                    all[i],
                    PARTITIONS as nat,
                ),
    {
        let one = route_message(router, msg);
        routed.push(one);
    }
    routed
}

/// One turn of the apply stage of one shard.
///
/// Where the outbox holds acknowledgements, the stage hands on as many of
/// them as the outgoing ring has room for, and the turn ends. Otherwise,
/// where the accepted prefix is finished, the stage takes the next prefix
/// from the prefix ring and accepts or drops it; where it is not finished,
/// the stage takes committed messages of the first client that has some left,
/// as many as that client's ring holds, executes those that are bound for
/// this shard and hands on their acknowledgements.
///
/// Whatever the rings hold, some run `routed` of `report.received` routed
/// messages was consumed, the store is as [`entries_after_all`] says of the
/// messages bound for this shard, and the outbox holds what it held and the
/// acknowledgements of those messages, less the `report.forwarded` that went
/// into the ring.
pub fn apply_messages_pipeline<const NUM_CLIENTS: usize, const PARTITIONS: usize, S: State>(
    client_channels: &mut Vec<rtrb::Consumer<ByteLogMessage>>,
    prefix_channel: &mut rtrb::Consumer<Prefix<NUM_CLIENTS>>,
    output_channel: &mut rtrb::Producer<AckMessage<Vec<u8>>>,
    router: &PartitionedHashMap<PARTITIONS>,
    partition: usize,
    stage: &mut ApplyStage<NUM_CLIENTS>,
    outbox: &mut VecDeque<AckMessage<Vec<u8>>>,
    state: &mut S,
) -> (report: TurnReport)
    requires
        old(stage).wf(),
        old(state).wf(),
        router.wf(),
        old(client_channels)@.len() == NUM_CLIENTS,
        forall|k: u64| partition_of(k, PARTITIONS as nat) == partition ==> old(state).admits(k),
    ensures
        final(stage).wf(),
        final(state).wf(),
        final(client_channels)@.len() == NUM_CLIENTS,
        forall|k: u64| final(state).admits(k) == old(state).admits(k),
        forall|c: int|
            0 <= c < NUM_CLIENTS ==> old(stage).consumed(c) <= #[trigger] final(stage).consumed(c),
        final(stage).target() == old(stage).target() || old(stage).accepts(final(stage).target()),
        exists|routed: Seq<RoutedMessage>|
            {
                &&& routed.len() == report.received
                &&& final(state).entries() == entries_after_all(
                    #[trigger] bound_for(routed, partition as nat),
                    old(state).entries(),
                )
                &&& final(outbox).deep_view() == (old(outbox).deep_view() + acks_for_all(
                    bound_for(routed, partition as nat),
                    old(state).entries(),
                )).skip(report.forwarded as int)
            },
        report.status == TurnStatus::Done ==> final(stage).finished() && final(outbox)@.len() == 0,
        report.status == TurnStatus::Blocked <==> final(outbox)@.len() > 0,
{
    let ghost nothing = Seq::<RoutedMessage>::empty();
    let ghost waiting = outbox.deep_view();
    let ghost entries = state.entries();
    assert(waiting + acks_for_all(bound_for(nothing, partition as nat), entries) =~= waiting);
    if outbox.len() > 0 {
        let moved = flush(output_channel, outbox);
        assert(outbox.deep_view() =~= waiting.skip(moved as int));
        let status = if outbox.len() > 0 {
            TurnStatus::Blocked
        } else {
            TurnStatus::Progress
        };
        return TurnReport { status, received: 0, forwarded: moved };
    }
    assert(waiting.skip(0) =~= waiting);
    match stage.demand() {
        None => {
            match ring_pop(prefix_channel) {
                Some(prefix) => {
                    stage.offer_prefix(prefix);
                    TurnReport { status: TurnStatus::Progress, received: 0, forwarded: 0 }
                },
                None => {
                    let status = if ring_is_abandoned(prefix_channel) && ring_is_empty(
                        prefix_channel,
                    ) {
                        TurnStatus::Done
                    } else {
                        TurnStatus::Idle
                    };
                    TurnReport { status, received: 0, forwarded: 0 }
                },
            }
        },
        Some((client, count)) => {
            let available = ring_readable(&client_channels[client]);
            let wanted = if (count as usize) < available {
                count as usize
            } else {
                available
            };
            let msgs = ring_read_chunk(&mut client_channels[client], wanted);
            let received = msgs.len();
            let routed = route_messages(router, msgs);
            let acks = stage.apply_messages_for_client_id(client, partition, routed, state);
            let ghost answers = acks.deep_view();
            enqueue_all(outbox, acks);
            assert(outbox.deep_view() =~= waiting + answers);
            let ghost full = outbox.deep_view();
            let forwarded = flush(output_channel, outbox);
            assert(outbox.deep_view() =~= full.skip(forwarded as int));
            let status = if outbox.len() > 0 {
                TurnStatus::Blocked
            } else if received > 0 {
                TurnStatus::Progress
            } else {
                TurnStatus::Idle
            };
            TurnReport { status, received, forwarded }
        },
    }
}

} // verus!
