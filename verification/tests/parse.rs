use thesis::message::ack::{AckMessage, AckMessageExtensions};
use thesis::message::client_message::{
    ClientId, ClientLogMessage, ClientMessageOperation, MessageId,
};
use thesis::message::encode::serialize_payload;
use thesis::message::wire::{ByteMessage, FramingError};
use thesis::message::Message;
use thesis::workers::parse::{parse_packet, parse_packets, ByteLogMessage, ParseStage};

fn op(client: u32, id: u32) -> ByteMessage {
    Message::IncomingClientMessage(ClientLogMessage {
        client_id: ClientId(client),
        message_id: MessageId(id),
        operation: ClientMessageOperation::Get { key: vec![client as u8, id as u8] },
    })
}

fn ack(client: u32, id: u32) -> ByteMessage {
    Message::AckMessage(AckMessage {
        client_id: ClientId(client),
        message_id: MessageId(id),
        extension: AckMessageExtensions::Empty,
    })
}

fn payload(messages: Vec<ByteMessage>) -> Vec<u8> {
    serialize_payload(&messages).unwrap()
}

fn tags(messages: &[ByteLogMessage]) -> Vec<(u32, u32)> {
    messages.iter().map(|m| (m.client_id.0, m.message_id.0)).collect()
}

#[test]
fn packet_is_cut_into_runs() {
    let bytes = payload(vec![op(0, 0), op(0, 1), op(1, 0), op(0, 2), op(2, 5), op(2, 6)]);
    let packet = parse_packet(&bytes, 3).unwrap();
    assert_eq!(packet.acks_dropped, 0);
    assert_eq!(packet.unknown_clients_dropped, 0);
    let runs: Vec<(u32, Vec<(u32, u32)>)> =
        packet.bursts.iter().map(|b| (b.client_id.0, tags(&b.messages))).collect();
    assert_eq!(
        runs,
        vec![
            (0, vec![(0, 0), (0, 1)]),
            (1, vec![(1, 0)]),
            (0, vec![(0, 2)]),
            (2, vec![(2, 5), (2, 6)]),
        ]
    );
}

#[test]
fn acks_and_strangers_are_dropped() {
    let bytes = payload(vec![op(0, 0), ack(0, 0), op(7, 1), op(1, 3), ack(1, 1), op(2, 0)]);
    let packet = parse_packet(&bytes, 2).unwrap();
    assert_eq!(packet.acks_dropped, 2);
    assert_eq!(packet.unknown_clients_dropped, 2);
    let kept: Vec<(u32, u32)> =
        packet.bursts.iter().flat_map(|b| tags(&b.messages)).collect();
    assert_eq!(kept, vec![(0, 0), (1, 3)]);
}

#[test]
fn dropped_messages_do_not_split_a_run() {
    let bytes = payload(vec![op(0, 0), ack(0, 9), op(0, 1), op(5, 0), op(0, 2)]);
    let packet = parse_packet(&bytes, 1).unwrap();
    assert_eq!(packet.bursts.len(), 1);
    assert_eq!(tags(&packet.bursts[0].messages), vec![(0, 0), (0, 1), (0, 2)]);
}

#[test]
fn empty_payload_gives_nothing() {
    let packet = parse_packet(&[], 4).unwrap();
    assert_eq!(packet.bursts.len(), 0);
    assert_eq!(packet.acks_dropped, 0);
    assert_eq!(packet.unknown_clients_dropped, 0);
}

#[test]
fn broken_packet_is_refused_whole() {
    let mut bytes = payload(vec![op(0, 0), op(0, 1)]);
    bytes.push(1);
    assert_eq!(parse_packet(&bytes, 1).err(), Some(FramingError::TrailingBytes));
    bytes.truncate(bytes.len() - 3);
    assert_eq!(parse_packet(&bytes, 1).err(), Some(FramingError::BadLength));
    bytes[8] = 0x7f;
    assert_eq!(parse_packet(&bytes, 1).err(), Some(FramingError::BadTag));
}

#[test]
fn packets_are_demultiplexed_by_client() {
    let (p0, mut c0) = rtrb::RingBuffer::new(16);
    let (p1, mut c1) = rtrb::RingBuffer::new(16);
    let mut channels = vec![p0, p1];
    let mut stage = ParseStage::new(2);
    let payloads = vec![
        payload(vec![op(0, 0), op(1, 0), op(0, 1), ack(0, 0)]),
        vec![1, 2, 3],
        Vec::new(),
        payload(vec![op(1, 1), op(9, 9), op(0, 2)]),
    ];
    let blocked = parse_packets(&payloads, &mut channels, &mut stage);
    assert!(!blocked);
    assert_eq!(stage.packets_refused(), 1);
    assert_eq!(stage.acks_dropped(), 1);
    assert_eq!(stage.unknown_clients_dropped(), 1);
    let mut first = Vec::new();
    while let Ok(m) = c0.pop() {
        first.push(m);
    }
    let mut second = Vec::new();
    while let Ok(m) = c1.pop() {
        second.push(m);
    }
    assert_eq!(tags(&first), vec![(0, 0), (0, 1), (0, 2)]);
    assert_eq!(tags(&second), vec![(1, 0), (1, 1)]);
    assert_eq!(stage.waiting(0), 0);
    assert_eq!(stage.waiting(1), 0);
}

#[test]
fn full_ring_blocks_without_loss() {
    let (p0, mut c0) = rtrb::RingBuffer::new(2);
    let mut channels = vec![p0];
    let mut stage = ParseStage::new(1);
    let payloads = vec![payload(vec![op(0, 0), op(0, 1), op(0, 2), op(0, 3), op(0, 4)])];
    assert!(parse_packets(&payloads, &mut channels, &mut stage));
    assert_eq!(stage.waiting(0), 3);
    let mut got = Vec::new();
    let none: Vec<Vec<u8>> = Vec::new();
    loop {
        while let Ok(m) = c0.pop() {
            got.push(m);
        }
        if !parse_packets(&none, &mut channels, &mut stage) {
            break;
        }
    }
    while let Ok(m) = c0.pop() {
        got.push(m);
    }
    assert_eq!(tags(&got), vec![(0, 0), (0, 1), (0, 2), (0, 3), (0, 4)]);
    assert_eq!(stage.waiting(0), 0);
}
