//! The order stage: restores the order of one client's messages.
//!
//! Messages may arrive out of order. The stage keeps those that are not yet
//! due in a buffer keyed by message id and hands on, in strictly consecutive
//! order, every message from the next expected id onward for which no gap is
//! left.

use vstd::prelude::*;
use std::collections::BTreeMap;
use std::collections::VecDeque;
use crate::channel::{
    enqueue_all, flush, ring_is_abandoned, ring_is_empty, ring_read_chunk, ring_readable,
};
use crate::message::client_message::{advance, ClientLogMessage};

verus! {

/// Something that can be put in order by a key.
pub trait Reorderable {
    type ReorderableKey: Into<usize>;

    fn key(&self) -> Self::ReorderableKey;
}

/// The mathematical value of a [`ReorderBuffer`].
pub ghost struct OrderState<M> {
    /// The id of the message that is handed on next.
    pub next: u32,
    /// The messages that wait for their turn, by message id.
    pub pending: Map<u32, M>,
}

/// The buffer after `m` has arrived: `m` is kept unless its id lies before
/// `next` (it is stale) or a message with its id waits already (the first to
/// arrive wins).
pub open spec fn take_in<K, V>(
    pending: Map<u32, ClientLogMessage<K, V>>,
    next: u32,
    m: ClientLogMessage<K, V>,
) -> Map<u32, ClientLogMessage<K, V>> {
    if m.message_id.0 >= next && !pending.contains_key(m.message_id.0) {
        pending.insert(m.message_id.0, m)
    } else {
        pending
    }
}

/// The buffer after the messages of `batch` have arrived one after the other.
pub open spec fn take_in_all<K, V>(
    pending: Map<u32, ClientLogMessage<K, V>>,
    next: u32,
    batch: Seq<ClientLogMessage<K, V>>,
) -> Map<u32, ClientLogMessage<K, V>>
    decreases batch.len(),
{
    if batch.len() == 0 {
        pending
    } else {
        take_in(take_in_all(pending, next, batch.drop_last()), next, batch.last())
    }
}

/// How many messages are due: the length of the longest run of consecutive
/// ids that starts at `next` and whose messages all wait in `pending`.
pub open spec fn run_length<M>(pending: Map<u32, M>, next: u32) -> nat
    decreases u32::MAX - next,
{
    if !pending.contains_key(next) {
        0
    } else if next == u32::MAX {
        1
    } else {
        1 + run_length(pending, (next + 1) as u32)
    }
}

/// The messages that are due, in the order of their ids.
pub open spec fn due<M>(pending: Map<u32, M>, next: u32) -> Seq<M> {
    Seq::new(run_length(pending, next), |i: int| pending[(next + i) as u32])
}

/// Whether `run` holds the messages that wait under the ids from `start` on,
/// one for each id and in the order of the ids.
pub open spec fn is_run_of<M>(run: Seq<M>, pending: Map<u32, M>, start: u32) -> bool {
    &&& forall|k: u32| start <= k < start + run.len() ==> #[trigger] pending.contains_key(k)
    &&& forall|i: int|
        #![trigger run[i]]
        0 <= i < run.len() ==> run[i] == pending[(start + i) as u32]
}

/// The ids of the messages that are due.
pub open spec fn due_ids<M>(pending: Map<u32, M>, next: u32) -> Set<u32> {
    Set::new(|k: u32| next <= k < next + run_length(pending, next))
}

impl<M> OrderState<M> {
    /// The state after every message that is due has been handed on.
    pub open spec fn released(self) -> OrderState<M> {
        OrderState {
            next: advance(self.next, run_length(self.pending, self.next)),
            pending: self.pending.remove_keys(due_ids(self.pending, self.next)),
        }
    }
}

impl<K, V> OrderState<ClientLogMessage<K, V>> {
    /// The state after the messages of `batch` have arrived and none has been
    /// handed on yet.
    pub open spec fn received(self, batch: Seq<ClientLogMessage<K, V>>) -> Self {
        OrderState { next: self.next, pending: take_in_all(self.pending, self.next, batch) }
    }

    /// What the stage hands on when `batch` arrives in this state.
    pub open spec fn handed_on(self, batch: Seq<ClientLogMessage<K, V>>) -> Seq<
        ClientLogMessage<K, V>,
    > {
        due(self.received(batch).pending, self.next)
    }

    /// The state in which the arrival of `batch` leaves the stage.
    pub open spec fn after(self, batch: Seq<ClientLogMessage<K, V>>) -> Self {
        self.received(batch).released()
    }

    /// The state in which the arrival of the messages of `batch`, each handled
    /// on its own, leaves the stage.
    pub open spec fn after_each(self, batch: Seq<ClientLogMessage<K, V>>) -> Self
        decreases batch.len(),
    {
        if batch.len() == 0 {
            self
        } else {
            self.after_each(batch.drop_last()).after(seq![batch.last()])
        }
    }

    /// What the stage hands on when the messages of `batch` arrive and each
    /// is handled on its own.
    pub open spec fn handed_on_each(self, batch: Seq<ClientLogMessage<K, V>>) -> Seq<
        ClientLogMessage<K, V>,
    >
        decreases batch.len(),
    {
        if batch.len() == 0 {
            Seq::empty()
        } else {
            self.handed_on_each(batch.drop_last()) + self.after_each(
                batch.drop_last(),
            ).handed_on(seq![batch.last()])
        }
    }

    /// The state in which the arrival of `batches`, one after the other,
    /// leaves the stage.
    pub open spec fn after_all(self, batches: Seq<Seq<ClientLogMessage<K, V>>>) -> Self
        decreases batches.len(),
    {
        if batches.len() == 0 {
            self
        } else {
            self.after_all(batches.drop_last()).after(batches.last())
        }
    }

    /// Everything that the stage hands on while `batches` arrive one after
    /// the other, in the order in which it is handed on.
    pub open spec fn handed_on_all(self, batches: Seq<Seq<ClientLogMessage<K, V>>>) -> Seq<
        ClientLogMessage<K, V>,
    >
        decreases batches.len(),
    {
        if batches.len() == 0 {
            Seq::empty()
        } else {
            self.handed_on_all(batches.drop_last()) + self.after_all(
                batches.drop_last(),
            ).handed_on(batches.last())
        }
    }
}

/// Whether a state is one that the stage can be in: no stale message waits,
/// and every message waits under its own id.
pub open spec fn order_state_wf<K, V>(state: OrderState<ClientLogMessage<K, V>>) -> bool {
    &&& state.pending.dom().finite()
    &&& forall|k: u32| #[trigger]
        state.pending.contains_key(k) ==> k >= state.next && state.pending[k].message_id.0 == k
}

/// The buffer of the order stage of one client.
pub struct ReorderBuffer<LogKeyType, LogValueType> {
    next: u32,
    pending: BTreeMap<u32, ClientLogMessage<LogKeyType, LogValueType>>,
}

impl<LogKeyType, LogValueType> View for ReorderBuffer<LogKeyType, LogValueType> {
    type V = OrderState<ClientLogMessage<LogKeyType, LogValueType>>;

    closed spec fn view(&self) -> Self::V {
        OrderState { next: self.next, pending: self.pending@ }
    }
}

impl<LogKeyType, LogValueType> ReorderBuffer<LogKeyType, LogValueType> {
    /// Whether the buffer is in a state that the stage can be in.
    pub open spec fn wf(&self) -> bool {
        order_state_wf(self@)
    }

    /// An empty buffer that expects the message `start` first.
    pub fn new(start: u32) -> (buffer: Self)
        ensures
            buffer.wf(),
            buffer@.next == start,
            buffer@.pending == Map::<u32, ClientLogMessage<LogKeyType, LogValueType>>::empty(),
    {
        ReorderBuffer { next: start, pending: BTreeMap::new() }
    }

    /// The id of the message that is handed on next.
    pub fn next_expected(&self) -> (next: u32)
        ensures
            next == self@.next,
    {
        self.next
    }

    /// How many messages wait for their turn.
    pub fn pending_len(&self) -> (n: usize)
        ensures
            n == self@.pending.len(),
    {
        self.pending.len()
    }

    /// Whether no message waits for its turn.
    pub fn is_empty(&self) -> (empty: bool)
        ensures
            empty == (self@.pending.len() == 0),
    {
        self.pending.len() == 0
    }

    /// Takes in one message. It is dropped where it is stale or repeats the
    /// id of a message that waits; the result says whether it was kept.
    pub fn insert(&mut self, m: ClientLogMessage<LogKeyType, LogValueType>) -> (kept: bool)
        requires
            old(self).wf(),
        ensures
            final(self).wf(),
            final(self)@.next == old(self)@.next,
            final(self)@.pending == take_in(old(self)@.pending, old(self)@.next, m),
            kept == (m.message_id.0 >= old(self)@.next && !old(self)@.pending.contains_key(
                m.message_id.0,
            )),
    {
        let id = m.message_id.0;
        if id >= self.next && !self.pending.contains_key(&id) {
            self.pending.insert(id, m);
            true
        } else {
            false
        }
    }

    /// Hands on every message that is due and moves the next expected id
    /// behind the last of them.
    pub fn release(&mut self) -> (out: Vec<ClientLogMessage<LogKeyType, LogValueType>>)
        requires
            old(self).wf(),
        ensures
            final(self).wf(),
            out@ == due(old(self)@.pending, old(self)@.next),
            final(self)@ == old(self)@.released(),
    {
        let mut out: Vec<ClientLogMessage<LogKeyType, LogValueType>> = Vec::new();
        let ghost start = self.next;
        let ghost before = self.pending@;
        let mut wrapped = false;
        while !wrapped
            invariant
                before.dom().finite(),
                forall|k: u32| #[trigger]
                    before.contains_key(k) ==> k >= start && before[k].message_id.0 == k,
                !wrapped ==> start + out@.len() == self.next,
                wrapped ==> start + out@.len() == 0x1_0000_0000 && self.next == 0,
                is_run_of(out@, before, start),
                self.pending@ == before.remove_keys(
                    Set::new(|k: u32| start <= k < start + out@.len()),
                ),
                !wrapped ==> run_length(before, start) == out@.len() + run_length(
                    before,
                    self.next,
                ),
                wrapped ==> run_length(before, start) == out@.len(),
            ensures
                run_length(before, start) == out@.len(),
                self.next == advance(start, out@.len() as nat),
                self.pending@ == before.remove_keys(
                    Set::new(|k: u32| start <= k < start + out@.len()),
                ),
                is_run_of(out@, before, start),
            decreases self.pending@.len(),
        {
            let ghost current = self.pending@;
            let ghost emitted = out@.len();
            let ghost handed = out@;
            let ghost at = self.next;
            match self.pending.remove(&self.next) {
                Some(m) => {
                    proof {
                        assert(current.contains_key(self.next));
                        assert(before.contains_key(self.next));
                        lemma_run_extends(before, start, self.next);
                        assert(self.pending@ =~= before.remove_keys(
                            Set::new(|k: u32| start <= k < start + emitted + 1),
                        ));
                        current.lemma_remove_key_len(self.next);
                    }
                    out.push(m);
                    proof {
                        assert(m == current[at]);
                        assert(current[at] == before[at]);
                        assert forall|i: int|
                            #![trigger out@[i]]
                            0 <= i < out@.len() implies out@[i] == before[(start + i) as u32] by {
                            if i < emitted {
                                assert(out@[i] == handed[i]);
                            }
                        }
                        assert(is_run_of(out@, before, start));
                    }
                    if self.next == u32::MAX {
                        self.next = 0;
                        wrapped = true;
                    } else {
                        self.next = self.next + 1;
                    }
                },
                None => {
                    proof {
                        assert(!current.contains_key(self.next));
                        assert(!before.contains_key(self.next));
                    }
                    break ;
                },
            }
        }
        proof {
            assert(out@ =~= due(before, start));
            assert(Set::new(|k: u32| start <= k < start + out@.len()) =~= due_ids(before, start));
        }
        out
    }
}

/// Takes in a batch of messages and then hands on whatever is due.
pub fn process_batch_with_tree_map<LogKeyType, LogValueType>(
    buffer: &mut ReorderBuffer<LogKeyType, LogValueType>,
    message_batch: Vec<ClientLogMessage<LogKeyType, LogValueType>>,
) -> (out: Vec<ClientLogMessage<LogKeyType, LogValueType>>)
    requires
        old(buffer).wf(),
    ensures
        final(buffer).wf(),
        out@ == old(buffer)@.handed_on(message_batch@),
        final(buffer)@ == old(buffer)@.after(message_batch@),
{
    let ghost batch = message_batch@;
    let ghost start = buffer@;
    assert(batch.take(0) =~= Seq::<ClientLogMessage<LogKeyType, LogValueType>>::empty());
    for m in it: message_batch
        invariant
            it.seq() == batch,
            buffer.wf(),
            buffer@ == start.received(batch.take(it.index() as int)),
    {
        let ghost i = it.index() as int;
        proof {
            assert(batch.take(i + 1).drop_last() =~= batch.take(i));
            assert(batch.take(i + 1).last() == m);
        }
        buffer.insert(m);
    }
    assert(batch.take(batch.len() as int) =~= batch);
    buffer.release()
}

/// Takes in a batch of messages one by one and hands on, after each of them,
/// whatever has become due.
pub fn process_batch<LogKeyType, LogValueType>(
    buffer: &mut ReorderBuffer<LogKeyType, LogValueType>,
    message_batch: Vec<ClientLogMessage<LogKeyType, LogValueType>>,
) -> (out: Vec<ClientLogMessage<LogKeyType, LogValueType>>)
    requires
        old(buffer).wf(),
    ensures
        final(buffer).wf(),
        out@ == old(buffer)@.handed_on_each(message_batch@),
        final(buffer)@ == old(buffer)@.after_each(message_batch@),
{
    let ghost batch = message_batch@;
    let ghost start = buffer@;
    let mut out: Vec<ClientLogMessage<LogKeyType, LogValueType>> = Vec::new();
    assert(batch.take(0) =~= Seq::<ClientLogMessage<LogKeyType, LogValueType>>::empty());
    for m in it: message_batch
        invariant
            it.seq() == batch,
            buffer.wf(),
            buffer@ == start.after_each(batch.take(it.index() as int)),
            out@ == start.handed_on_each(batch.take(it.index() as int)),
    {
        let ghost i = it.index() as int;
        let ghost before = buffer@;
        proof {
            assert(batch.take(i + 1).drop_last() =~= batch.take(i));
            assert(batch.take(i + 1).last() == m);
            assert(seq![m].drop_last() =~= Seq::<ClientLogMessage<LogKeyType, LogValueType>>::empty());
            assert(before.received(seq![m]).pending == take_in(before.pending, before.next, m)) by {
                reveal_with_fuel(take_in_all, 2);
                assert(seq![m].last() == m);
            }
        }
        buffer.insert(m);
        let mut ready = buffer.release();
        out.append(&mut ready);
    }
    assert(batch.take(batch.len() as int) =~= batch);
    out
}

/// Where the message with id `at` waits and every id from `start` up to `at`
/// lies in the run that starts at `start`, the run goes on behind `at`.
proof fn lemma_run_extends<M>(pending: Map<u32, M>, start: u32, at: u32)
    requires
        start <= at,
        pending.contains_key(at),
        run_length(pending, start) >= at - start,
    ensures
        at < u32::MAX ==> run_length(pending, start) == (at - start) + 1 + run_length(
            pending,
            (at + 1) as u32,
        ),
        at == u32::MAX ==> run_length(pending, start) == (at - start) + 1,
        run_length(pending, start) == (at - start) + run_length(pending, at),
    decreases at - start,
{
    lemma_run_splits(pending, start, at);
}

/// A run that reaches `at` is the run up to `at` followed by the run from
/// `at` on.
pub proof fn lemma_run_splits<M>(pending: Map<u32, M>, start: u32, at: u32)
    requires
        start <= at,
        run_length(pending, start) >= at - start,
    ensures
        run_length(pending, start) == (at - start) + run_length(pending, at),
    decreases at - start,
{
    if start < at {
        assert(pending.contains_key(start));
        lemma_run_splits(pending, (start + 1) as u32, at);
    }
}

/// How a turn of a stage ended.
#[derive(Debug, Clone, Copy, PartialEq, Eq, Structural)]
pub enum TurnStatus {
    /// The stage took something in or handed something on.
    Progress,
    /// There was nothing to do.
    Idle,
    /// The outgoing ring is full and the stage holds output for it.
    Blocked,
    /// The input is abandoned and everything has been handed on.
    Done,
}

/// What a turn of a stage did.
#[derive(Debug, Clone, Copy)]
pub struct TurnReport {
    pub status: TurnStatus,
    /// How many values the stage took from its input.
    pub received: usize,
    /// How many values the stage moved into its outgoing ring.
    pub forwarded: usize,
}

/// The order stage of one client: its buffer, the messages that are in order
/// and wait for room in the outgoing ring, and the id up to which messages
/// have been handed to that ring.
pub struct OrderStage<LogKeyType, LogValueType> {
    buffer: ReorderBuffer<LogKeyType, LogValueType>,
    outbox: VecDeque<ClientLogMessage<LogKeyType, LogValueType>>,
    published: u32,
}

impl<LogKeyType, LogValueType> OrderStage<LogKeyType, LogValueType> {
    /// The state of the buffer.
    pub closed spec fn buffer(&self) -> OrderState<ClientLogMessage<LogKeyType, LogValueType>> {
        self.buffer@
    }

    /// The messages that are in order and wait for room in the outgoing ring.
    pub closed spec fn outbox(&self) -> Seq<ClientLogMessage<LogKeyType, LogValueType>> {
        self.outbox@
    }

    /// The id behind the last message handed to the outgoing ring: the value
    /// of the shared `next` counter.
    pub closed spec fn published(&self) -> u32 {
        self.published
    }

    /// Whether the stage is in a state that its turns keep up: nothing that
    /// is due waits in the buffer, and the messages in the outbox carry the
    /// ids between the published one and the next expected one.
    pub open spec fn wf(&self) -> bool {
        &&& order_state_wf(self.buffer())
        &&& !self.buffer().pending.contains_key(self.buffer().next)
        &&& self.buffer().next == advance(self.published(), self.outbox().len())
        &&& forall|i: int|
            0 <= i < self.outbox().len() ==> (#[trigger] self.outbox()[i]).message_id.0 == advance(
                self.published(),
                i as nat,
            )
    }

    /// A stage that expects the message `start` first.
    pub fn new(start: u32) -> (stage: Self)
        ensures
            stage.wf(),
            stage.published() == start,
            stage.buffer().next == start,
            stage.buffer().pending == Map::<u32, ClientLogMessage<LogKeyType, LogValueType>>::empty(),
            stage.outbox() == Seq::<ClientLogMessage<LogKeyType, LogValueType>>::empty(),
    {
        OrderStage { buffer: ReorderBuffer::new(start), outbox: VecDeque::new(), published: start }
    }

    /// The value for the shared `next` counter: the id behind the last
    /// message handed to the outgoing ring.
    pub fn next_holder(&self) -> (next: u32)
        ensures
            next == self.published(),
    {
        self.published
    }

    /// How many messages wait in the buffer for an earlier one.
    pub fn buffered(&self) -> (n: usize)
        ensures
            n == self.buffer().pending.len(),
    {
        self.buffer.pending_len()
    }
}

/// One turn of the order stage of one client.
///
/// Where the outbox holds messages, the stage hands on as many of them as
/// the outgoing ring has room for, and the turn ends. Otherwise the stage
/// takes what the input ring holds, puts it in order and hands on what has
/// become due, as far as the outgoing ring has room.
///
/// Whatever the rings hold, some batch `batch` of `report.received` messages
/// was taken in, the buffer is as [`OrderState::after`] says, and the outbox
/// holds what was due before and what became due, less the
/// `report.forwarded` messages that went into the ring.
pub fn order_messages<LogKeyType, LogValueType>(
    input_channel: &mut rtrb::Consumer<ClientLogMessage<LogKeyType, LogValueType>>,
    out_channel: &mut rtrb::Producer<ClientLogMessage<LogKeyType, LogValueType>>,
    stage: &mut OrderStage<LogKeyType, LogValueType>,
) -> (report: TurnReport)
    requires
        old(stage).wf(),
    ensures
        final(stage).wf(),
        final(stage).published() == advance(old(stage).published(), report.forwarded as nat),
        exists|batch: Seq<ClientLogMessage<LogKeyType, LogValueType>>|
            {
                &&& batch.len() == report.received
                &&& final(stage).buffer() == #[trigger] old(stage).buffer().after(batch)
                &&& final(stage).outbox() == (old(stage).outbox() + old(stage).buffer().handed_on(
                    batch,
                )).skip(report.forwarded as int)
            },
        report.status == TurnStatus::Done ==> final(stage).outbox().len() == 0
            && final(stage).buffer().pending.len() == 0 && report.received == 0,
        report.status == TurnStatus::Blocked <==> final(stage).outbox().len() > 0,
        report.status == TurnStatus::Idle ==> report.received == 0 && report.forwarded == 0,
{
    let ghost nothing = Seq::<ClientLogMessage<LogKeyType, LogValueType>>::empty();
    let ghost start = stage.buffer();
    let ghost waiting = stage.outbox();
    proof {
        lemma_nothing_due(start);
        assert(waiting + start.handed_on(nothing) =~= waiting);
    }
    if stage.outbox.len() > 0 {
        let moved = flush(out_channel, &mut stage.outbox);
        proof {
            lemma_skip_keeps_ids(waiting, stage.published, moved as nat);
        }
        stage.published = advance_by(stage.published, moved);
        let status = if stage.outbox.len() > 0 {
            TurnStatus::Blocked
        } else {
            TurnStatus::Progress
        };
        return TurnReport { status, received: 0, forwarded: moved };
    }
    assert(waiting =~= nothing);
    let available = ring_readable(input_channel);
    if available == 0 {
        let status = if ring_is_abandoned(input_channel) && ring_is_empty(input_channel)
            && stage.buffer.is_empty() {
            TurnStatus::Done
        } else {
            TurnStatus::Idle
        };
        assert(waiting.skip(0) =~= waiting);
        return TurnReport { status, received: 0, forwarded: 0 };
    }
    let batch = ring_read_chunk(input_channel, available);
    let received = batch.len();
    let ghost taken = batch@;
    let ready = process_batch_with_tree_map(&mut stage.buffer, batch);
    let ghost released = ready@;
    proof {
        crate::workers::order_laws::lemma_received_wf(start, taken);
        crate::workers::order_laws::lemma_released_wf(start.received(taken));
        crate::workers::order_laws::lemma_due_is_consecutive(start.received(taken));
    }
    enqueue_all(&mut stage.outbox, ready);
    let ghost queued = stage.outbox@;
    let forwarded = flush(out_channel, &mut stage.outbox);
    proof {
        assert(queued =~= released);
        assert(waiting + released =~= released);
        lemma_skip_keeps_ids(queued, stage.published, forwarded as nat);
    }
    stage.published = advance_by(stage.published, forwarded);
    let status = if stage.outbox.len() > 0 {
        TurnStatus::Blocked
    } else if received > 0 {
        TurnStatus::Progress
    } else {
        TurnStatus::Idle
    };
    TurnReport { status, received, forwarded }
}

/// The id that lies `steps` behind `id`.
fn advance_by(id: u32, steps: usize) -> (moved: u32)
    ensures
        moved == advance(id, steps as nat),
{
    let wide = (id as u64 + (steps as u64 % 0x1_0000_0000)) % 0x1_0000_0000;
    proof {
        vstd::arithmetic::div_mod::lemma_add_mod_noop(
            id as int,
            steps as int,
            0x1_0000_0000int,
        );
        vstd::arithmetic::div_mod::lemma_small_mod(id as nat, 0x1_0000_0000nat);
    }
    wide as u32
}

/// A state in which nothing is due stays as it is when nothing arrives, and
/// hands on nothing.
proof fn lemma_nothing_due<K, V>(state: OrderState<ClientLogMessage<K, V>>)
    requires
        !state.pending.contains_key(state.next),
    ensures
        state.after(Seq::empty()) == state,
        state.handed_on(Seq::empty()) == Seq::<ClientLogMessage<K, V>>::empty(),
{
    let nothing = Seq::<ClientLogMessage<K, V>>::empty();
    assert(state.received(nothing) == state);
    assert(due_ids(state.pending, state.next) =~= Set::<u32>::empty());
    assert(state.pending.remove_keys(Set::<u32>::empty()) =~= state.pending);
    assert(state.handed_on(nothing) =~= nothing);
}

/// Where a queue carries consecutive ids from `from` on, what is left of it
/// behind its first `n` messages carries consecutive ids from the id `n`
/// steps behind `from` on.
proof fn lemma_skip_keeps_ids<K, V>(queue: Seq<ClientLogMessage<K, V>>, from: u32, n: nat)
    requires
        n <= queue.len(),
        forall|i: int|
            0 <= i < queue.len() ==> (#[trigger] queue[i]).message_id.0 == advance(from, i as nat),
    ensures
        forall|i: int|
            0 <= i < queue.skip(n as int).len() ==> (#[trigger] queue.skip(
                n as int,
            )[i]).message_id.0 == advance(advance(from, n), i as nat),
        advance(advance(from, n), (queue.len() - n) as nat) == advance(from, queue.len()),
{
    let rest = queue.skip(n as int);
    assert forall|i: int| 0 <= i < rest.len() implies (#[trigger] rest[i]).message_id.0 == advance(
        advance(from, n),
        i as nat,
    ) by {
        assert(rest[i] == queue[i + n]);
        crate::workers::order_laws::lemma_advance_adds(from, n, i as nat);
    }
    crate::workers::order_laws::lemma_advance_adds(from, n, (queue.len() - n) as nat);
}

} // verus!
