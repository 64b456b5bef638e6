//! The parse stage: from one packet payload to per-client bursts of messages.

use vstd::prelude::*;
use std::collections::VecDeque;
use itertools::Itertools;
use crate::channel::{enqueue_all, flush};
use crate::message::Message;
use crate::message::client_message::{ClientId, ClientLogMessage};
use crate::message::decode::decode_payload;
use crate::message::wire::{parse_payload, ByteMessage, ByteMessageView, FramingError};

verus! {

/// A client operation on byte strings.
pub type ByteLogMessage = ClientLogMessage<Vec<u8>, Vec<u8>>;

/// The mathematical value of a [`ByteLogMessage`].
pub type ByteLogMessageView = ClientLogMessage<Seq<u8>, Seq<u8>>;

/// Messages of one client that stood next to each other in a packet, in the
/// order in which they stood there.
#[derive(Debug)]
pub struct ClientBurst<LogKeyType, LogValueType> {
    pub client_id: ClientId,
    pub messages: Vec<ClientLogMessage<LogKeyType, LogValueType>>,
}

/// The messages of a sequence of bursts, one burst after the other.
pub open spec fn flatten<K, V>(bursts: Seq<ClientBurst<K, V>>) -> Seq<ClientLogMessage<K, V>>
    decreases bursts.len(),
{
    if bursts.len() == 0 {
        Seq::empty()
    } else {
        flatten(bursts.drop_last()) + bursts.last().messages@
    }
}

/// Whether `bursts` cuts `messages` into its runs of equal client id: put
/// together the bursts give `messages`; no burst is empty; each burst holds
/// messages of its own client only; and neighbouring bursts belong to
/// different clients.
pub open spec fn cuts_into_runs<K, V>(
    bursts: Seq<ClientBurst<K, V>>,
    messages: Seq<ClientLogMessage<K, V>>,
) -> bool {
    &&& flatten(bursts) == messages
    &&& forall|i: int|
        0 <= i < bursts.len() ==> (#[trigger] bursts[i]).messages@.len() > 0
    &&& forall|i: int, j: int|
        0 <= i < bursts.len() && 0 <= j < bursts[i].messages@.len() ==> (
        #[trigger] bursts[i].messages@[j]).client_id == bursts[i].client_id
    &&& forall|i: int|
        0 < i < bursts.len() ==> bursts[i - 1].client_id != (#[trigger] bursts[i]).client_id
}

/// Calls `Itertools::group_by` with the client id as key and collects each
/// group. The contract says what the crate documents: consecutive elements
/// with the same key form one group, and the groups come in the order of the
/// elements.
#[verifier::external_body]
fn group_runs_by_client<K, V>(messages: Vec<ClientLogMessage<K, V>>) -> (bursts: Vec<
    ClientBurst<K, V>,
>)
    ensures
        cuts_into_runs(bursts@, messages@),
{
    let runs = messages.into_iter().group_by(|message| message.client_id);
    let mut bursts = Vec::new();
    for (client_id, run) in &runs {
        bursts.push(ClientBurst { client_id, messages: run.collect() });
    }
    bursts
}

/// The client operations among `ms` that come from one of the first
/// `num_clients` clients, in their order.
pub open spec fn accepted(ms: Seq<ByteMessageView>, num_clients: nat) -> Seq<ByteLogMessageView>
    decreases ms.len(),
{
    if ms.len() == 0 {
        Seq::empty()
    } else {
        let before = accepted(ms.drop_last(), num_clients);
        match ms.last() {
            Message::IncomingClientMessage(message) => if message.client_id.0 < num_clients {
                before.push(message)
            } else {
                before
            },
            Message::AckMessage(_) => before,
        }
    }
}

/// How many of `ms` are acknowledgements.
pub open spec fn acks_among(ms: Seq<ByteMessageView>) -> nat
    decreases ms.len(),
{
    if ms.len() == 0 {
        0
    } else {
        acks_among(ms.drop_last()) + if ms.last() is AckMessage {
            1nat
        } else {
            0nat
        }
    }
}

/// How many of `ms` are client operations of a client that is not one of the
/// first `num_clients`.
pub open spec fn strangers_among(ms: Seq<ByteMessageView>, num_clients: nat) -> nat
    decreases ms.len(),
{
    if ms.len() == 0 {
        0
    } else {
        strangers_among(ms.drop_last(), num_clients) + match ms.last() {
            Message::IncomingClientMessage(message) => if message.client_id.0 >= num_clients {
                1nat
            } else {
                0nat
            },
            Message::AckMessage(_) => 0nat,
        }
    }
}

/// What one packet gave.
#[derive(Debug)]
pub struct ParsedPacket {
    /// The accepted operations, cut into runs of one client each.
    pub bursts: Vec<ClientBurst<Vec<u8>, Vec<u8>>>,
    /// Acknowledgements found in the packet and dropped.
    pub acks_dropped: usize,
    /// Operations dropped because their client is unknown.
    pub unknown_clients_dropped: usize,
}

/// The mathematical value of each message of `messages`.
pub open spec fn values_of(messages: Seq<ByteLogMessage>) -> Seq<ByteLogMessageView> {
    messages.map_values(|m: ByteLogMessage| m.deep_view())
}

/// Decodes one packet payload and sorts out what the parse stage hands on.
///
/// A payload that is not a sequence of messages is refused as a whole, with
/// the fault that [`parse_payload`] names. Otherwise every acknowledgement
/// and every operation of a client outside `0..num_clients` is dropped and
/// counted, and the remaining operations are handed on in arrival order, cut
/// into runs of one client each.
pub fn parse_packet(payload: &[u8], num_clients: usize) -> (r: Result<ParsedPacket, FramingError>)
    ensures
        match r {
            Ok(packet) => {
                &&& parse_payload(payload@) is Ok
                &&& cuts_into_runs(packet.bursts@, flatten(packet.bursts@))
                &&& forall|i: int|
                    0 <= i < packet.bursts@.len() ==> (#[trigger] packet.bursts@[i]).client_id.0
                        < num_clients
                &&& values_of(flatten(packet.bursts@)) == accepted(
                    parse_payload(payload@)->Ok_0,
                    num_clients as nat,
                )
                &&& packet.acks_dropped == acks_among(parse_payload(payload@)->Ok_0)
                &&& packet.unknown_clients_dropped == strangers_among(
                    parse_payload(payload@)->Ok_0,
                    num_clients as nat,
                )
            },
            Err(e) => parse_payload(payload@) == Err::<Seq<ByteMessageView>, FramingError>(e),
        },
{
    let decoded = match decode_payload(payload) {
        Ok(ms) => ms,
        Err(e) => {
            return Err(e);
        },
    };
    let ghost all = decoded.deep_view();
    let mut kept: Vec<ByteLogMessage> = Vec::new();
    let mut acks_dropped: usize = 0;
    let mut unknown_clients_dropped: usize = 0;
    let total = decoded.len();
    assert(all.take(0) =~= Seq::<ByteMessageView>::empty());
    assert(values_of(kept@) =~= accepted(all.take(0), num_clients as nat));
    for m in it: decoded
        invariant
            it.seq().len() == total,
            all.len() == total,
            forall|k: int| 0 <= k < total ==> (#[trigger] it.seq()[k]).deep_view() == all[k],
            values_of(kept@) == accepted(all.take(it.index() as int), num_clients as nat),
            forall|k: int| 0 <= k < kept@.len() ==> (#[trigger] kept@[k]).client_id.0 < num_clients,
            acks_dropped == acks_among(all.take(it.index() as int)),
            unknown_clients_dropped == strangers_among(
                all.take(it.index() as int),
                num_clients as nat,
            ),
            acks_dropped + unknown_clients_dropped <= it.index(),
    {
        let ghost i = it.index() as int;
        proof {
            assert(all.take(i + 1).drop_last() =~= all.take(i));
            assert(all.take(i + 1).last() == all[i]);
            assert(m.deep_view() == all[i]);
        }
        let ghost kept_before = kept@;
        match m {
            Message::IncomingClientMessage(message) => {
                if (message.client_id.0 as usize) < num_clients {
                    let ghost value = message.deep_view();
                    kept.push(message);
                    assert(values_of(kept@) =~= values_of(kept_before).push(value));
                } else {
                    unknown_clients_dropped = unknown_clients_dropped + 1;
                }
            },
            Message::AckMessage(_) => {
                acks_dropped = acks_dropped + 1;
            },
        }
    }
    assert(all.take(total as int) =~= all);
    let ghost kept_all = kept@;
    let bursts = group_runs_by_client(kept);
    proof {
        assert forall|i: int| 0 <= i < bursts@.len() implies (#[trigger] bursts@[i]).client_id.0
            < num_clients by {
            lemma_burst_member_of_flatten(bursts@, i, 0);
            let k = choose|k: int|
                0 <= k < flatten(bursts@).len() && flatten(bursts@)[k] == bursts@[i].messages@[0];
            assert(kept_all[k].client_id.0 < num_clients);
        }
    }
    Ok(ParsedPacket { bursts, acks_dropped, unknown_clients_dropped })
}

/// The messages of client `client` among `messages`, in their order.
pub open spec fn for_client(messages: Seq<ByteLogMessageView>, client: nat) -> Seq<
    ByteLogMessageView,
>
    decreases messages.len(),
{
    if messages.len() == 0 {
        Seq::empty()
    } else {
        let before = for_client(messages.drop_last(), client);
        if messages.last().client_id.0 == client {
            before.push(messages.last())
        } else {
            before
        }
    }
}

/// What the parse stage hands on of a run of payloads: the accepted
/// operations of each payload that is a sequence of messages, payload after
/// payload.
pub open spec fn accepted_from(payloads: Seq<Seq<u8>>, num_clients: nat) -> Seq<ByteLogMessageView>
    decreases payloads.len(),
{
    if payloads.len() == 0 {
        Seq::empty()
    } else {
        accepted_from(payloads.drop_last(), num_clients) + match parse_payload(payloads.last()) {
            Ok(ms) => accepted(ms, num_clients),
            Err(_) => Seq::empty(),
        }
    }
}

/// How many of `payloads` are no sequence of messages.
pub open spec fn refused_among(payloads: Seq<Seq<u8>>) -> nat
    decreases payloads.len(),
{
    if payloads.len() == 0 {
        0
    } else {
        refused_among(payloads.drop_last()) + if parse_payload(payloads.last()) is Err {
            1nat
        } else {
            0nat
        }
    }
}

/// How many acknowledgements stand in those of `payloads` that are sequences
/// of messages.
pub open spec fn acks_in(payloads: Seq<Seq<u8>>) -> nat
    decreases payloads.len(),
{
    if payloads.len() == 0 {
        0
    } else {
        acks_in(payloads.drop_last()) + match parse_payload(payloads.last()) {
            Ok(ms) => acks_among(ms),
            Err(_) => 0nat,
        }
    }
}

/// How many operations of unknown clients stand in those of `payloads` that
/// are sequences of messages.
pub open spec fn strangers_in(payloads: Seq<Seq<u8>>, num_clients: nat) -> nat
    decreases payloads.len(),
{
    if payloads.len() == 0 {
        0
    } else {
        strangers_in(payloads.drop_last(), num_clients) + match parse_payload(payloads.last()) {
            Ok(ms) => strangers_among(ms, num_clients),
            Err(_) => 0nat,
        }
    }
}

/// A counter that has counted `more` events beyond `count` and stops at the
/// largest value it can hold.
pub open spec fn counted(count: u64, more: nat) -> u64 {
    if count + more > u64::MAX {
        u64::MAX
    } else {
        (count + more) as u64
    }
}

/// Whether `rest` is what is left of `whole` behind some of its first
/// elements.
pub open spec fn is_rest_of<T>(rest: Seq<T>, whole: Seq<T>) -> bool {
    exists|moved: int| 0 <= moved <= whole.len() && rest == #[trigger] whole.skip(moved)
}

/// The parse stage: for each client the operations that wait for room in the
/// client's ring, and the counters of what was dropped.
pub struct ParseStage {
    outboxes: Vec<VecDeque<ByteLogMessage>>,
    packets_refused: u64,
    acks_dropped: u64,
    unknown_clients_dropped: u64,
}

impl ParseStage {
    /// The number of clients that the stage serves.
    pub closed spec fn num_clients(&self) -> nat {
        self.outboxes@.len()
    }

    /// The operations of client `client` that wait for room in its ring.
    pub closed spec fn outbox(&self, client: int) -> Seq<ByteLogMessageView> {
        self.outboxes@[client].deep_view()
    }

    /// How many payloads were refused as a whole.
    pub closed spec fn refused(&self) -> u64 {
        self.packets_refused
    }

    /// How many acknowledgements were found in payloads and dropped.
    pub closed spec fn acks(&self) -> u64 {
        self.acks_dropped
    }

    /// How many operations of unknown clients were dropped.
    pub closed spec fn strangers(&self) -> u64 {
        self.unknown_clients_dropped
    }

    /// A stage for `num_clients` clients that holds nothing and has counted
    /// nothing.
    pub fn new(num_clients: usize) -> (stage: Self)
        ensures
            stage.num_clients() == num_clients,
            stage.refused() == 0,
            stage.acks() == 0,
            stage.strangers() == 0,
            forall|c: int|
                0 <= c < num_clients ==> #[trigger] stage.outbox(c) == Seq::<
                    ByteLogMessageView,
                >::empty(),
    {
        let mut outboxes: Vec<VecDeque<ByteLogMessage>> = Vec::new();
        let mut c: usize = 0;
        while c < num_clients
            invariant
                c <= num_clients,
                outboxes@.len() == c,
                forall|d: int|
                    0 <= d < c ==> (#[trigger] outboxes@[d]).deep_view() == Seq::<
                        ByteLogMessageView,
                    >::empty(),
            decreases num_clients - c,
        {
            let empty: VecDeque<ByteLogMessage> = VecDeque::new();
            assert(empty.deep_view() =~= Seq::<ByteLogMessageView>::empty());
            outboxes.push(empty);
            c = c + 1;
        }
        ParseStage { outboxes, packets_refused: 0, acks_dropped: 0, unknown_clients_dropped: 0 }
    }

    /// How many payloads were refused as a whole.
    pub fn packets_refused(&self) -> (n: u64)
        ensures
            n == self.refused(),
    {
        self.packets_refused
    }

    /// How many acknowledgements were found in payloads and dropped.
    pub fn acks_dropped(&self) -> (n: u64)
        ensures
            n == self.acks(),
    {
        self.acks_dropped
    }

    /// How many operations of unknown clients were dropped.
    pub fn unknown_clients_dropped(&self) -> (n: u64)
        ensures
            n == self.strangers(),
    {
        self.unknown_clients_dropped
    }

    /// How many operations of client `client` wait for room in its ring.
    pub fn waiting(&self, client: usize) -> (n: usize)
        requires
            client < self.num_clients(),
        ensures
            n == self.outbox(client as int).len(),
    {
        self.outboxes[client].len()
    }
}

/// Each message of a burst stands in the messages of the bursts put
/// together.
pub proof fn lemma_burst_member_of_flatten<K, V>(bursts: Seq<ClientBurst<K, V>>, i: int, j: int)
    requires
        0 <= i < bursts.len(),
        0 <= j < bursts[i].messages@.len(),
    ensures
        exists|k: int|
            0 <= k < flatten(bursts).len() && flatten(bursts)[k] == bursts[i].messages@[j],
    decreases bursts.len(),
{
    let before = flatten(bursts.drop_last());
    if i == bursts.len() - 1 {
        let k = before.len() + j;
        assert(flatten(bursts)[k] == bursts[i].messages@[j]);
    } else {
        lemma_burst_member_of_flatten(bursts.drop_last(), i, j);
        let k = choose|k: int|
            0 <= k < before.len() && before[k] == bursts.drop_last()[i].messages@[j];
        assert(flatten(bursts)[k] == bursts[i].messages@[j]);
    }
}

/// The messages of a client among two runs put together are its messages
/// among the first followed by its messages among the second.
pub proof fn lemma_for_client_concat(
    first: Seq<ByteLogMessageView>,
    second: Seq<ByteLogMessageView>,
    client: nat,
)
    ensures
        for_client(first + second, client) == for_client(first, client) + for_client(
            second,
            client,
        ),
    decreases second.len(),
{
    if second.len() == 0 {
        assert(first + second =~= first);
        assert(for_client(first, client) + for_client(second, client) =~= for_client(
            first,
            client,
        ));
    } else {
        lemma_for_client_concat(first, second.drop_last(), client);
        assert((first + second).drop_last() =~= first + second.drop_last());
        assert((first + second).last() == second.last());
        assert(for_client(first + second, client) =~= for_client(first, client) + for_client(
            second,
            client,
        ));
    }
}

/// Among messages that all come from one client, the messages of that
/// client are all of them, and those of another client none.
pub proof fn lemma_for_client_of_run(run: Seq<ByteLogMessageView>, owner: nat, client: nat)
    requires
        forall|i: int| 0 <= i < run.len() ==> (#[trigger] run[i]).client_id.0 == owner,
    ensures
        for_client(run, client) == if client == owner {
            run
        } else {
            Seq::empty()
        },
    decreases run.len(),
{
    if run.len() > 0 {
        lemma_for_client_of_run(run.drop_last(), owner, client);
        if client == owner {
            assert(run.drop_last().push(run.last()) =~= run);
        }
    }
}

/// Puts the messages of each burst behind what the outbox of the burst's
/// client holds.
fn hand_out(
    outboxes: &mut Vec<VecDeque<ByteLogMessage>>,
    bursts: Vec<ClientBurst<Vec<u8>, Vec<u8>>>,
)
    requires
        forall|i: int|
            0 <= i < bursts@.len() ==> (#[trigger] bursts@[i]).client_id.0 < old(outboxes)@.len(),
        forall|i: int, j: int|
            0 <= i < bursts@.len() && 0 <= j < bursts@[i].messages@.len() ==> (
            #[trigger] bursts@[i].messages@[j]).client_id == bursts@[i].client_id,
    ensures
        final(outboxes)@.len() == old(outboxes)@.len(),
        forall|c: int|
            0 <= c < old(outboxes)@.len() ==> (#[trigger] final(outboxes)@[c]).deep_view() == old(
                outboxes,
            )@[c].deep_view() + for_client(values_of(flatten(bursts@)), c as nat),
{
    let ghost all = bursts@;
    let ghost n = outboxes@.len();
    proof {
        assert(all.take(0) =~= Seq::<ClientBurst<Vec<u8>, Vec<u8>>>::empty());
        assert forall|c: int| 0 <= c < n implies (#[trigger] outboxes@[c]).deep_view() == old(
            outboxes,
        )@[c].deep_view() + for_client(values_of(flatten(all.take(0))), c as nat) by {
            assert(values_of(flatten(all.take(0))) =~= Seq::<ByteLogMessageView>::empty());
            assert(old(outboxes)@[c].deep_view() + Seq::<ByteLogMessageView>::empty() =~= old(
                outboxes,
            )@[c].deep_view());
        }
    }
    for burst in it: bursts
        invariant
            it.seq() == all,
            outboxes@.len() == n,
            n == old(outboxes)@.len(),
            forall|i: int| 0 <= i < all.len() ==> (#[trigger] all[i]).client_id.0 < n,
            forall|i: int, j: int|
                0 <= i < all.len() && 0 <= j < all[i].messages@.len() ==> (
                #[trigger] all[i].messages@[j]).client_id == all[i].client_id,
            forall|c: int|
                0 <= c < n ==> (#[trigger] outboxes@[c]).deep_view() == old(
                    outboxes,
                )@[c].deep_view() + for_client(
                    values_of(flatten(all.take(it.index() as int))),
                    c as nat,
                ),
    {
        let ghost i = it.index() as int;
        let ghost held = outboxes@;
        let ghost run = burst.messages@;
        let owner = burst.client_id.0 as usize;
        assert(all[i] == burst);
        enqueue_all(&mut outboxes[owner], burst.messages);
        proof {
            let earlier = values_of(flatten(all.take(i)));
            let now = values_of(flatten(all.take(i + 1)));
            assert(all.take(i + 1).drop_last() =~= all.take(i));
            assert(all.take(i + 1).last() == burst);
            assert(now =~= earlier + values_of(run));
            assert forall|k: int| 0 <= k < values_of(run).len() implies (#[trigger] values_of(
                run,
            )[k]).client_id.0 == owner by {
                assert(all[i].messages@[k].client_id == all[i].client_id);
            }
            assert forall|c: int| 0 <= c < n implies (#[trigger] outboxes@[c]).deep_view() == old(
                outboxes,
            )@[c].deep_view() + for_client(now, c as nat) by {
                lemma_for_client_concat(earlier, values_of(run), c as nat);
                lemma_for_client_of_run(values_of(run), owner as nat, c as nat);
                if c == owner {
                    assert(outboxes@[c]@ == held[c]@ + run);
                    assert(outboxes@[c].deep_view() =~= held[c].deep_view() + values_of(run));
                } else {
                    assert(outboxes@[c] == held[c]);
                    assert(for_client(earlier, c as nat) + Seq::<ByteLogMessageView>::empty()
                        =~= for_client(earlier, c as nat));
                }
            }
        }
    }
    assert(all.take(all.len() as int) =~= all);
}

/// One turn of the parse stage.
///
/// Each payload is decoded. A payload that is no sequence of messages is
/// refused and counted. Of the others, acknowledgements and operations of
/// unknown clients are dropped and counted, and the remaining operations are
/// put behind what waits for their clients' rings, in arrival order. Then the
/// stage moves into each ring as much of what waits for it as the ring has
/// room for. The result tells whether anything is left waiting.
pub fn parse_packets(
    payloads: &Vec<Vec<u8>>,
    client_log_message_channels: &mut Vec<rtrb::Producer<ByteLogMessage>>,
    stage: &mut ParseStage,
) -> (blocked: bool)
    requires
        old(client_log_message_channels)@.len() == old(stage).num_clients(),
    ensures
        final(stage).num_clients() == old(stage).num_clients(),
        final(client_log_message_channels)@.len() == old(stage).num_clients(),
        final(stage).refused() == counted(
            old(stage).refused(),
            refused_among(payloads.deep_view()),
        ),
        final(stage).acks() == counted(old(stage).acks(), acks_in(payloads.deep_view())),
        final(stage).strangers() == counted(
            old(stage).strangers(),
            strangers_in(payloads.deep_view(), old(stage).num_clients()),
        ),
        forall|c: int|
            0 <= c < old(stage).num_clients() ==> is_rest_of(
                #[trigger] final(stage).outbox(c),
                old(stage).outbox(c) + for_client(
                    accepted_from(payloads.deep_view(), old(stage).num_clients()),
                    c as nat,
                ),
            ),
        blocked == exists|c: int|
            0 <= c < old(stage).num_clients() && (#[trigger] final(stage).outbox(c)).len() > 0,
{
    let num_clients = stage.outboxes.len();
    let ghost all = payloads.deep_view();
    let ghost n = num_clients as nat;
    let ghost held = stage.outboxes@;
    let mut p: usize = 0;
    proof {
        assert(all.take(0) =~= Seq::<Seq<u8>>::empty());
        assert forall|c: int| 0 <= c < n implies (#[trigger] stage.outboxes@[c]).deep_view()
            == held[c].deep_view() + for_client(accepted_from(all.take(0), n), c as nat) by {
            assert(held[c].deep_view() + Seq::<ByteLogMessageView>::empty() =~= held[c].deep_view());
        }
    }
    while p < payloads.len()
        invariant
            p <= payloads.len(),
            all == payloads.deep_view(),
            held == old(stage).outboxes@,
            n == held.len(),
            num_clients == n,
            stage.outboxes@.len() == n,
            client_log_message_channels@.len() == n,
            stage.packets_refused == counted(old(stage).refused(), refused_among(all.take(p as int))),
            stage.acks_dropped == counted(old(stage).acks(), acks_in(all.take(p as int))),
            stage.unknown_clients_dropped == counted(
                old(stage).strangers(),
                strangers_in(all.take(p as int), n),
            ),
            forall|c: int|
                0 <= c < n ==> (#[trigger] stage.outboxes@[c]).deep_view() == held[c].deep_view()
                    + for_client(accepted_from(all.take(p as int), n), c as nat),
        decreases payloads.len() - p,
    {
        let ghost queued = stage.outboxes@;
        let ghost earlier = accepted_from(all.take(p as int), n);
        proof {
            assert(all.take(p + 1).drop_last() =~= all.take(p as int));
            assert(all.take(p + 1).last() == all[p as int]);
            assert(payloads@[p as int]@ == all[p as int]);
        }
        match parse_packet(payloads[p].as_slice(), num_clients) {
            Ok(packet) => {
                stage.acks_dropped = stage.acks_dropped.saturating_add(packet.acks_dropped as u64);
                stage.unknown_clients_dropped = stage.unknown_clients_dropped.saturating_add(
                    packet.unknown_clients_dropped as u64,
                );
                let ghost fresh = values_of(flatten(packet.bursts@));
                hand_out(&mut stage.outboxes, packet.bursts);
                proof {
                    assert forall|c: int| 0 <= c < n implies (
                    #[trigger] stage.outboxes@[c]).deep_view() == held[c].deep_view() + for_client(
                        accepted_from(all.take(p + 1), n),
                        c as nat,
                    ) by {
                        lemma_for_client_concat(earlier, fresh, c as nat);
                        assert(stage.outboxes@[c].deep_view() =~= held[c].deep_view() + (for_client(
                            earlier,
                            c as nat,
                        ) + for_client(fresh, c as nat)));
                    }
                }
            },
            Err(_) => {
                stage.packets_refused = stage.packets_refused.saturating_add(1);
                proof {
                    assert(accepted_from(all.take(p + 1), n) =~= earlier);
                }
            },
        }
        p = p + 1;
    }
    assert(all.take(payloads.len() as int) =~= all);
    let ghost full = stage.outboxes@;
    let ghost counters = (
        stage.packets_refused,
        stage.acks_dropped,
        stage.unknown_clients_dropped,
    );
    let mut blocked = false;
    let mut c: usize = 0;
    while c < num_clients
        invariant
            c <= num_clients,
            counters == (stage.packets_refused, stage.acks_dropped, stage.unknown_clients_dropped),
            num_clients == n,
            stage.outboxes@.len() == n,
            full.len() == n,
            client_log_message_channels@.len() == n,
            forall|d: int|
                0 <= d < c ==> is_rest_of(
                    (#[trigger] stage.outboxes@[d]).deep_view(),
                    full[d].deep_view(),
                ),
            forall|d: int| c <= d < n ==> (#[trigger] stage.outboxes@[d]) == full[d],
            blocked == exists|d: int|
                0 <= d < c && (#[trigger] stage.outboxes@[d]).deep_view().len() > 0,
        decreases num_clients - c,
    {
        let ghost before = stage.outboxes@;
        let ghost was_blocked = blocked;
        let moved = flush(&mut client_log_message_channels[c], &mut stage.outboxes[c]);
        let left = stage.outboxes[c].len();
        if left > 0 {
            blocked = true;
        }
        proof {
            assert(stage.outboxes@[c as int].deep_view() =~= full[c as int].deep_view().skip(
                moved as int,
            ));
            assert forall|d: int| 0 <= d < c + 1 implies is_rest_of(
                (#[trigger] stage.outboxes@[d]).deep_view(),
                full[d].deep_view(),
            ) by {
                if d < c {
                    assert(stage.outboxes@[d] == before[d]);
                }
            }
            if was_blocked {
                let d = choose|d: int| 0 <= d < c && (#[trigger] before[d]).deep_view().len() > 0;
                assert(stage.outboxes@[d] == before[d]);
            }
            if blocked && !was_blocked {
                assert(stage.outboxes@[c as int].deep_view().len() > 0);
            }
            if !blocked {
                assert forall|d: int| 0 <= d < c + 1 implies !((
                #[trigger] stage.outboxes@[d]).deep_view().len() > 0) by {
                    if d < c {
                        assert(stage.outboxes@[d] == before[d]);
                    }
                }
            }
        }
        c = c + 1;
    }
    proof {
        if blocked {
            let d = choose|d: int|
                0 <= d < n && (#[trigger] stage.outboxes@[d]).deep_view().len() > 0;
            assert(stage.outbox(d).len() > 0);
        } else {
            assert forall|d: int| 0 <= d < n implies !((#[trigger] stage.outbox(d)).len() > 0) by {
                assert(!(stage.outboxes@[d].deep_view().len() > 0));
            }
        }
    }
    blocked
}

} // verus!
