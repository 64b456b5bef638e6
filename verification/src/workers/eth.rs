//! The stages next to the network card: packets in, acknowledgements out.
//!
//! The card itself is driven outside this library. The ingest stage is handed
//! the packets of one receive burst; the egress stage says which packets the
//! next transmit burst is to carry and is told how many of them the card
//! took.

use vstd::prelude::*;
use std::collections::VecDeque;
use crate::channel::{enqueue_all, flush, ring_read_chunk, ring_readable};
use crate::message::Message;
use crate::message::ack::AckMessage;
use crate::message::encode::{serialize_message, write_u64};
use crate::message::wire::{
    encode_message, encode_messages, encode_payload, extension_fits, ByteMessageView,
};

verus! {

/// The bytes that the headers of a packet take: ethernet, IPv4 and UDP.
pub const PACKET_HEADER_BYTES: u16 = 28;

/// The most packets that one burst can carry.
pub const MAX_BURST: usize = 65535;

/// How many bytes of payload fit into a packet of a port with transmission
/// unit `mtu`.
pub fn usable_payload_bytes(mtu: u16) -> (bytes: usize)
    requires
        mtu >= PACKET_HEADER_BYTES,
    ensures
        bytes == mtu - PACKET_HEADER_BYTES,
{
    (mtu - PACKET_HEADER_BYTES) as usize
}

/// One turn of the ingest stage: the packets of a receive burst are put
/// behind those that wait for room in the ring, and as many as the ring has
/// room for are moved into it, oldest first. No packet is dropped.
pub fn read_packets_from_nic_port_into_channel<T>(
    received: Vec<T>,
    output_channel: &mut rtrb::Producer<T>,
    waiting: &mut VecDeque<T>,
) -> (moved: usize)
    ensures
        moved <= old(waiting)@.len() + received@.len(),
        final(waiting)@ == (old(waiting)@ + received@).skip(moved as int),
{
    enqueue_all(waiting, received);
    flush(output_channel, waiting)
}

/// The packets that wait to be transmitted, oldest first.
pub struct TransmitQueue<T> {
    pending: VecDeque<T>,
}

impl<T> View for TransmitQueue<T> {
    type V = Seq<T>;

    closed spec fn view(&self) -> Seq<T> {
        self.pending@
    }
}

/// The length of the next burst where `pending` packets wait.
pub open spec fn burst_of(pending: nat) -> nat {
    if pending < MAX_BURST {
        pending
    } else {
        MAX_BURST as nat
    }
}

impl<T> TransmitQueue<T> {
    /// A queue in which nothing waits.
    pub fn new() -> (queue: Self)
        ensures
            queue@ == Seq::<T>::empty(),
    {
        TransmitQueue { pending: VecDeque::new() }
    }

    /// How many packets wait.
    pub fn len(&self) -> (n: usize)
        ensures
            n == self@.len(),
    {
        self.pending.len()
    }

    /// Takes packets from the ring, at most one burst of them, and puts them
    /// behind those that wait. The result is the number taken.
    pub fn refill(&mut self, input_channel: &mut rtrb::Consumer<T>) -> (taken: usize)
        ensures
            taken <= MAX_BURST,
            final(self)@.len() == old(self)@.len() + taken,
            final(self)@.take(old(self)@.len() as int) == old(self)@,
    {
        let available = ring_readable(input_channel);
        let num_to_read = if available < MAX_BURST {
            available
        } else {
            MAX_BURST
        };
        let chunk = ring_read_chunk(input_channel, num_to_read);
        let taken = chunk.len();
        enqueue_all(&mut self.pending, chunk);
        assert(self@.take(old(self)@.len() as int) =~= old(self)@);
        taken
    }

    /// The packets of the next burst: the oldest that wait, up to the most
    /// that a burst can carry.
    pub fn next_burst(&self) -> (burst: Vec<&T>)
        ensures
            burst@.len() == burst_of(self@.len()),
            forall|i: int| 0 <= i < burst@.len() ==> *(#[trigger] burst@[i]) == self@[i],
    {
        let total = self.pending.len();
        let count = if total < MAX_BURST {
            total
        } else {
            MAX_BURST
        };
        let mut burst: Vec<&T> = Vec::new();
        let mut i: usize = 0;
        while i < count
            invariant
                i <= count <= self.pending@.len(),
                burst@.len() == i,
                forall|j: int| 0 <= j < i ==> *(#[trigger] burst@[j]) == self.pending@[j],
            decreases count - i,
        {
            burst.push(&self.pending[i]);
            i = i + 1;
        }
        burst
    }

    /// Takes note that the card took the first `sent` packets of the burst:
    /// they leave the queue, and what the card did not take stays at its
    /// front for the next burst.
    pub fn confirm_sent(&mut self, sent: u16) -> (gone: Vec<T>)
        requires
            sent <= burst_of(old(self)@.len()),
        ensures
            gone@ == old(self)@.take(sent as int),
            final(self)@ == old(self)@.skip(sent as int),
    {
        let mut gone: Vec<T> = Vec::new();
        let mut i: u16 = 0;
        assert(self@ =~= old(self)@.skip(0));
        assert(gone@ =~= old(self)@.take(0));
        while i < sent
            invariant
                i <= sent <= old(self)@.len(),
                gone@ == old(self)@.take(i as int),
                self.pending@ == old(self)@.skip(i as int),
            decreases sent - i,
        {
            let packet = self.pending.pop_front().unwrap();
            gone.push(packet);
            i = i + 1;
            assert(gone@ =~= old(self)@.take(i as int));
            assert(self.pending@ =~= old(self)@.skip(i as int));
        }
        gone
    }
}

/// The acknowledgements `acks`, each as a message of the wire.
pub open spec fn as_messages(acks: Seq<AckMessage<Seq<u8>>>) -> Seq<ByteMessageView> {
    acks.map_values(|ack: AckMessage<Seq<u8>>| Message::AckMessage(ack))
}

/// Whether the wire can carry each of `acks`.
pub open spec fn acks_fit(acks: Seq<AckMessage<Seq<u8>>>) -> bool {
    forall|i: int| 0 <= i < acks.len() ==> extension_fits((#[trigger] acks[i]).extension)
}

/// How many of the first acknowledgements of `acks` one payload of at most
/// `budget` bytes carries, having taken `taken` of them already: as many as
/// fit, and the first one in any case.
pub open spec fn packed_count(acks: Seq<AckMessage<Seq<u8>>>, budget: nat, taken: nat) -> nat
    decreases acks.len() - taken,
{
    if taken >= acks.len() {
        taken
    } else if taken > 0 && encode_payload(as_messages(acks.take(taken as int + 1))).len() > budget {
        taken
    } else {
        packed_count(acks, budget, taken + 1)
    }
}

/// Fills one payload with acknowledgements from the front of the outbox: as
/// many as fit into `budget` bytes, and the first one even where it alone
/// does not fit. Nothing is returned where the outbox is empty.
pub fn pack_acks(outbox: &mut VecDeque<AckMessage<Vec<u8>>>, budget: usize) -> (payload: Option<
    Vec<u8>,
>)
    requires
        acks_fit(old(outbox).deep_view()),
    ensures
        acks_fit(final(outbox).deep_view()),
        match payload {
            None => old(outbox)@.len() == 0 && final(outbox)@ == old(outbox)@,
            Some(bytes) => {
                let count = packed_count(old(outbox).deep_view(), budget as nat, 0);
                &&& old(outbox)@.len() > 0
                &&& 1 <= count <= old(outbox)@.len()
                &&& bytes@ == encode_payload(
                    as_messages(old(outbox).deep_view().take(count as int)),
                )
                &&& final(outbox).deep_view() == old(outbox).deep_view().skip(count as int)
            },
        },
{
    if outbox.len() == 0 {
        return None;
    }
    let ghost all = outbox.deep_view();
    let total = outbox.len();
    let mut body: Vec<u8> = Vec::new();
    let mut count: usize = 0;
    proof {
        assert(all.skip(0) =~= all);
        assert(as_messages(all.take(0)) =~= Seq::<ByteMessageView>::empty());
    }
    loop
        invariant
            all == old(outbox).deep_view(),
            all.len() == total,
            acks_fit(all),
            count <= all.len(),
            outbox.deep_view() == all.skip(count as int),
            body@ == encode_messages(as_messages(all.take(count as int))),
            packed_count(all, budget as nat, 0) == packed_count(all, budget as nat, count as nat),
        ensures
            count <= all.len(),
            all.len() > 0 ==> count >= 1,
            outbox.deep_view() == all.skip(count as int),
            body@ == encode_messages(as_messages(all.take(count as int))),
            packed_count(all, budget as nat, 0) == count,
        decreases all.len() - count,
    {
        let ghost rest = outbox.deep_view();
        let ghost held = outbox@;
        match outbox.pop_front() {
            None => {
                assert(rest.len() == 0);
                break ;
            },
            Some(ack) => {
                let ghost value = ack.deep_view();
                let ghost behind = outbox.deep_view();
                proof {
                    assert(behind =~= rest.skip(1));
                    assert(rest.skip(1) =~= all.skip(count as int + 1));
                    assert(rest.len() > 0);
                    assert(value == rest[0]);
                    assert(rest[0] == all[count as int]);
                    assert(extension_fits(all[count as int].extension));
                    let upto = as_messages(all.take(count as int + 1));
                    assert(upto.drop_last() =~= as_messages(all.take(count as int)));
                    assert(upto.last() == Message::<Seq<u8>, Seq<u8>>::AckMessage(value));
                }
                let message = Message::AckMessage(ack);
                let mut piece: Vec<u8> = Vec::new();
                serialize_message(&mut piece, &message);
                assert(piece@ =~= encode_message(message.deep_view()));
                let fits = body.len() <= budget && piece.len() <= budget - body.len() && 8
                    <= budget - body.len() - piece.len();
                proof {
                    let upto = as_messages(all.take(count as int + 1));
                    assert(encode_messages(upto) == body@ + piece@);
                    assert(encode_payload(upto).len() == 8 + body@.len() + piece@.len());
                    assert(fits == (encode_payload(upto).len() <= budget));
                }
                if count > 0 && !fits {
                    match message {
                        Message::AckMessage(back) => {
                            outbox.push_front(back);
                            assert(outbox@ =~= held);
                            assert(outbox.deep_view() =~= rest);
                        },
                        Message::IncomingClientMessage(_) => {
                            assert(false);
                        },
                    }
                    break ;
                }
                body.append(&mut piece);
                count = count + 1;
                assert(outbox.deep_view() == behind);
            },
        }
    }
    let mut bytes: Vec<u8> = Vec::new();
    write_u64(&mut bytes, count as u64);
    bytes.append(&mut body);
    proof {
        assert(bytes@ =~= encode_payload(as_messages(all.take(count as int))));
        assert forall|i: int| 0 <= i < outbox.deep_view().len() implies extension_fits(
            (#[trigger] outbox.deep_view()[i]).extension,
        ) by {
            assert(outbox.deep_view()[i] == all[i + count]);
        }
    }
    Some(bytes)
}

} // verus!
