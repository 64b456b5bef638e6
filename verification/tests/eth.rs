use std::collections::VecDeque;
use thesis::message::ack::{AckMessage, AckMessageExtensions};
use thesis::message::client_message::{ClientId, MessageId};
use thesis::message::decode::decode_payload;
use thesis::message::Message;
use thesis::workers::eth::{
    pack_acks, read_packets_from_nic_port_into_channel, usable_payload_bytes, TransmitQueue,
};

#[test]
fn headers_take_twenty_eight_bytes() {
    assert_eq!(usable_payload_bytes(1500), 1472);
    assert_eq!(usable_payload_bytes(9001), 8973);
    assert_eq!(usable_payload_bytes(28), 0);
}

#[test]
fn ingest_drops_nothing() {
    let (mut ring, mut reader) = rtrb::RingBuffer::new(3);
    let mut waiting = VecDeque::new();
    let moved = read_packets_from_nic_port_into_channel(vec![1, 2, 3, 4, 5], &mut ring, &mut waiting);
    assert_eq!(moved, 3);
    assert_eq!(waiting, VecDeque::from(vec![4, 5]));
    assert_eq!(reader.pop(), Ok(1));
    let moved = read_packets_from_nic_port_into_channel(vec![6], &mut ring, &mut waiting);
    assert_eq!(moved, 1);
    assert_eq!(waiting, VecDeque::from(vec![5, 6]));
    let mut got = Vec::new();
    while let Ok(p) = reader.pop() {
        got.push(p);
    }
    assert_eq!(got, vec![2, 3, 4]);
    let moved = read_packets_from_nic_port_into_channel(Vec::new(), &mut ring, &mut waiting);
    assert_eq!(moved, 2);
    assert!(waiting.is_empty());
}

#[test]
fn unsent_suffix_is_retried() {
    let (mut writer, mut ring) = rtrb::RingBuffer::new(8);
    for packet in 10..15 {
        writer.push(packet).unwrap();
    }
    let mut queue = TransmitQueue::new();
    assert_eq!(queue.next_burst().len(), 0);
    assert_eq!(queue.refill(&mut ring), 5);
    assert_eq!(queue.len(), 5);
    assert_eq!(queue.next_burst(), vec![&10, &11, &12, &13, &14]);
    assert_eq!(queue.confirm_sent(2), vec![10, 11]);
    assert_eq!(queue.next_burst(), vec![&12, &13, &14]);
    assert_eq!(queue.confirm_sent(0), Vec::<i32>::new());
    assert_eq!(queue.len(), 3);
    writer.push(15).unwrap();
    assert_eq!(queue.refill(&mut ring), 1);
    assert_eq!(queue.next_burst(), vec![&12, &13, &14, &15]);
    assert_eq!(queue.confirm_sent(4), vec![12, 13, 14, 15]);
    assert_eq!(queue.len(), 0);
    assert_eq!(queue.refill(&mut ring), 0);
}

fn ack(id: u32, value: Option<Vec<u8>>) -> AckMessage<Vec<u8>> {
    AckMessage {
        client_id: ClientId(1),
        message_id: MessageId(id),
        extension: AckMessageExtensions::Get(value),
    }
}

fn ids_in(payload: &[u8]) -> Vec<u32> {
    decode_payload(payload)
        .unwrap()
        .iter()
        .map(|m| match m {
            Message::AckMessage(a) => a.message_id.0,
            Message::IncomingClientMessage(_) => panic!("not an acknowledgement"),
        })
        .collect()
}

#[test]
fn acks_are_packed_to_the_budget() {
    // An acknowledgement without value takes 11 bytes, the count 8.
    let mut outbox: VecDeque<AckMessage<Vec<u8>>> = (0..5).map(|i| ack(i, None)).collect();
    let payload = pack_acks(&mut outbox, 8 + 2 * 11).unwrap();
    assert_eq!(payload.len(), 8 + 2 * 11);
    assert_eq!(ids_in(&payload), vec![0, 1]);
    assert_eq!(outbox.len(), 3);
    let payload = pack_acks(&mut outbox, 8 + 3 * 11 - 1).unwrap();
    assert_eq!(ids_in(&payload), vec![2, 3]);
    let payload = pack_acks(&mut outbox, 1000).unwrap();
    assert_eq!(ids_in(&payload), vec![4]);
    assert!(outbox.is_empty());
    assert_eq!(pack_acks(&mut outbox, 1000), None);
}

#[test]
fn an_oversized_ack_travels_alone() {
    let mut outbox: VecDeque<AckMessage<Vec<u8>>> =
        vec![ack(0, Some(vec![7; 100])), ack(1, None)].into();
    let payload = pack_acks(&mut outbox, 20).unwrap();
    assert_eq!(ids_in(&payload), vec![0]);
    assert_eq!(payload.len(), 8 + 11 + 4 + 100);
    assert_eq!(outbox.len(), 1);
    let payload = pack_acks(&mut outbox, 0).unwrap();
    assert_eq!(ids_in(&payload), vec![1]);
}
