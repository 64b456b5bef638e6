use rand::seq::SliceRandom;
use std::collections::{BTreeMap, HashMap, VecDeque};
use thesis::message::ack::{AckMessage, AckMessageExtensions};
use thesis::message::client_message::{
    ClientId, ClientLogMessage, ClientMessageOperation, MessageId,
};
use thesis::prefix::Prefix;
use thesis::state::State;
use thesis::table::{PartitionedHashMap, PartitionedHashMapHandle};
use thesis::workers::order_messages::{order_messages, OrderStage, TurnStatus};
use thesis::workers::parse::ByteLogMessage;
use thesis::workers::pipeline::{
    apply_message_to_state, apply_messages_pipeline, route_message, route_messages, ApplyStage,
    HashedLogMessage,
};

fn make_put_pair_with_msg_id(
    message_id: u32,
    key: u64,
    value: u8,
    r: Option<u8>,
) -> (HashedLogMessage, AckMessage<Vec<u8>>) {
    (
        ClientLogMessage {
            client_id: ClientId(0),
            message_id: MessageId(message_id),
            operation: ClientMessageOperation::Put { key, value: vec![value] },
        },
        AckMessage {
            client_id: ClientId(0),
            message_id: MessageId(message_id),
            extension: AckMessageExtensions::Put(r.map(|v| vec![v])),
        },
    )
}

fn make_get_pair_with_msg_id(
    message_id: u32,
    key: u64,
    r: Option<u8>,
) -> (HashedLogMessage, AckMessage<Vec<u8>>) {
    (
        ClientLogMessage {
            client_id: ClientId(0),
            message_id: MessageId(message_id),
            operation: ClientMessageOperation::Get { key },
        },
        AckMessage {
            client_id: ClientId(0),
            message_id: MessageId(message_id),
            extension: AckMessageExtensions::Get(r.map(|v| vec![v])),
        },
    )
}

fn make_delete_pair_with_msg_id(
    message_id: u32,
    key: u64,
    r: Option<u8>,
) -> (HashedLogMessage, AckMessage<Vec<u8>>) {
    (
        ClientLogMessage {
            client_id: ClientId(0),
            message_id: MessageId(message_id),
            operation: ClientMessageOperation::Delete { key },
        },
        AckMessage {
            client_id: ClientId(0),
            message_id: MessageId(message_id),
            extension: AckMessageExtensions::Delete(r.map(|v| vec![v])),
        },
    )
}

fn simple_messages() -> Vec<(HashedLogMessage, AckMessage<Vec<u8>>)> {
    vec![
        make_put_pair_with_msg_id(0, 1, 2, None),
        make_put_pair_with_msg_id(1, 1, 3, Some(2)),
        make_put_pair_with_msg_id(2, 1, 4, Some(3)),
        make_put_pair_with_msg_id(3, 1, 5, Some(4)),
        make_delete_pair_with_msg_id(4, 1, Some(5)),
        make_get_pair_with_msg_id(5, 1, None),
    ]
}

fn apply_messages_to_state<S: State>(
    mut state: S,
    generator: Vec<(HashedLogMessage, AckMessage<Vec<u8>>)>,
) -> S {
    for (msg, expected) in generator {
        let resulting_ack = apply_message_to_state(msg, &mut state);
        assert_eq!(expected, resulting_ack, "Expected and resulting acks were different");
    }
    state
}

#[test]
fn test_apply_simple_messages_results_in_correct_acks() {
    let state: HashMap<u64, Vec<u8>> = HashMap::new();
    let state = apply_messages_to_state(state, simple_messages());
    assert!(state.is_empty());
}

#[test]
fn simple_messages_on_an_ordered_map() {
    let state: BTreeMap<u64, Vec<u8>> = BTreeMap::new();
    let state = apply_messages_to_state(state, simple_messages());
    assert!(state.is_empty());
}

#[test]
fn simple_messages_on_a_shard() {
    let mut table = PartitionedHashMap::<1>::new();
    let handle = PartitionedHashMap::create_all_handles(&mut table).pop().unwrap().unwrap();
    let handle = apply_messages_to_state(handle, simple_messages());
    assert_eq!(handle.len(), 0);
}

#[test]
fn get_returns_the_current_binding() {
    let mut state: HashMap<u64, Vec<u8>> = HashMap::new();
    state.put(9, vec![1, 2, 3]);
    let (get, _) = make_get_pair_with_msg_id(4, 9, None);
    let ack = apply_message_to_state(get, &mut state);
    assert_eq!(ack.client_id, ClientId(0));
    assert_eq!(ack.message_id, MessageId(4));
    assert_eq!(ack.extension, AckMessageExtensions::Get(Some(vec![1, 2, 3])));
    assert_eq!(State::get(&state, &9), Some(&vec![1, 2, 3]));
    State::clear(&mut state);
    assert_eq!(State::get(&state, &9), None);
}

fn byte_put(id: u32, key: &[u8], value: &[u8]) -> ByteLogMessage {
    ClientLogMessage {
        client_id: ClientId(0),
        message_id: MessageId(id),
        operation: ClientMessageOperation::Put { key: key.to_vec(), value: value.to_vec() },
    }
}

fn byte_get(id: u32, key: &[u8]) -> ByteLogMessage {
    ClientLogMessage {
        client_id: ClientId(0),
        message_id: MessageId(id),
        operation: ClientMessageOperation::Get { key: key.to_vec() },
    }
}

fn byte_delete(id: u32, key: &[u8]) -> ByteLogMessage {
    ClientLogMessage {
        client_id: ClientId(0),
        message_id: MessageId(id),
        operation: ClientMessageOperation::Delete { key: key.to_vec() },
    }
}

/// One partition, one client: the rings and stages of a whole store.
struct Store {
    to_order: rtrb::Producer<ByteLogMessage>,
    order_in: rtrb::Consumer<ByteLogMessage>,
    order_out: rtrb::Producer<ByteLogMessage>,
    apply_in: Vec<rtrb::Consumer<ByteLogMessage>>,
    prefixes: rtrb::Producer<Prefix<1>>,
    prefix_in: rtrb::Consumer<Prefix<1>>,
    acks_out: rtrb::Producer<AckMessage<Vec<u8>>>,
    acks: rtrb::Consumer<AckMessage<Vec<u8>>>,
    order: OrderStage<Vec<u8>, Vec<u8>>,
    apply: ApplyStage<1>,
    outbox: VecDeque<AckMessage<Vec<u8>>>,
    table: PartitionedHashMap<1>,
    shard: PartitionedHashMapHandle<1>,
}

impl Store {
    fn new() -> Store {
        let (to_order, order_in) = rtrb::RingBuffer::new(64);
        let (order_out, apply_in) = rtrb::RingBuffer::new(64);
        let (prefixes, prefix_in) = rtrb::RingBuffer::new(64);
        let (acks_out, acks) = rtrb::RingBuffer::new(64);
        let mut table = PartitionedHashMap::<1>::new();
        let shard = PartitionedHashMap::create_all_handles(&mut table).pop().unwrap().unwrap();
        Store {
            to_order,
            order_in,
            order_out,
            apply_in: vec![apply_in],
            prefixes,
            prefix_in,
            acks_out,
            acks,
            order: OrderStage::new(0),
            apply: ApplyStage::new(),
            outbox: VecDeque::new(),
            table,
            shard,
        }
    }

    fn send(&mut self, messages: Vec<ByteLogMessage>) {
        for m in messages {
            self.to_order.push(m).unwrap();
        }
    }

    fn commit(&mut self, id: u64, mark: u32) {
        self.prefixes.push(Prefix { id, states: [MessageId(mark)] }).unwrap();
    }

    /// Runs both stages until neither has anything left to do.
    fn settle(&mut self) -> Vec<AckMessage<Vec<u8>>> {
        let mut got = Vec::new();
        loop {
            let ordered = order_messages(&mut self.order_in, &mut self.order_out, &mut self.order);
            let applied = apply_messages_pipeline(
                &mut self.apply_in,
                &mut self.prefix_in,
                &mut self.acks_out,
                &self.table,
                0,
                &mut self.apply,
                &mut self.outbox,
                &mut self.shard,
            );
            while let Ok(ack) = self.acks.pop() {
                got.push(ack);
            }
            let resting = |s: TurnStatus| s == TurnStatus::Idle || s == TurnStatus::Done;
            if resting(ordered.status) && resting(applied.status) {
                return got;
            }
        }
    }
}

#[test]
fn put_then_get() {
    let mut store = Store::new();
    store.send(vec![byte_put(0, b"a", b"1"), byte_get(1, b"a")]);
    store.commit(0, 2);
    let acks = store.settle();
    assert_eq!(
        acks,
        vec![
            AckMessage {
                client_id: ClientId(0),
                message_id: MessageId(0),
                extension: AckMessageExtensions::Put(None),
            },
            AckMessage {
                client_id: ClientId(0),
                message_id: MessageId(1),
                extension: AckMessageExtensions::Get(Some(b"1".to_vec())),
            },
        ]
    );
    assert_eq!(store.apply.messages_consumed(0), 2);
}

#[test]
fn duplicate_is_dropped() {
    let mut store = Store::new();
    store.send(vec![byte_put(0, b"a", b"1"), byte_put(0, b"a", b"2")]);
    store.commit(0, 1);
    let acks = store.settle();
    assert_eq!(
        acks,
        vec![AckMessage {
            client_id: ClientId(0),
            message_id: MessageId(0),
            extension: AckMessageExtensions::Put(None),
        }]
    );
    assert_eq!(store.shard.len(), 1);
    let hash = store.table.get_partition_and_key_hash(b"a").1;
    assert_eq!(store.shard.get(hash), Some(&b"1".to_vec()));
}

#[test]
fn prefix_gates_application() {
    let mut store = Store::new();
    let puts: Vec<ByteLogMessage> =
        (0..10u32).map(|i| byte_put(i, &i.to_le_bytes(), &[i as u8])).collect();
    store.send(puts);
    let acks = store.settle();
    assert_eq!(acks.len(), 0);
    assert_eq!(store.shard.len(), 0);
    store.commit(1, 5);
    let acks = store.settle();
    assert_eq!(acks.len(), 5);
    for (i, ack) in acks.iter().enumerate() {
        assert_eq!(ack.message_id, MessageId(i as u32));
        assert_eq!(ack.extension, AckMessageExtensions::Put(None));
    }
    assert_eq!(store.shard.len(), 5);
    assert_eq!(store.apply.messages_consumed(0), 5);
    store.commit(2, 10);
    let acks = store.settle();
    assert_eq!(acks.len(), 5);
    for (i, ack) in acks.iter().enumerate() {
        assert_eq!(ack.message_id, MessageId(5 + i as u32));
    }
    assert_eq!(store.shard.len(), 10);
    assert_eq!(store.apply.messages_consumed(0), 10);
}

#[test]
fn delete_of_absent_key() {
    let mut store = Store::new();
    store.send(vec![byte_delete(0, b"x")]);
    store.commit(0, 1);
    let acks = store.settle();
    assert_eq!(
        acks,
        vec![AckMessage {
            client_id: ClientId(0),
            message_id: MessageId(0),
            extension: AckMessageExtensions::Delete(None),
        }]
    );
    assert_eq!(store.shard.len(), 0);
}

#[test]
fn same_prefix_twice_changes_nothing() {
    let mut store = Store::new();
    store.send(vec![byte_put(0, b"a", b"1"), byte_put(1, b"a", b"2")]);
    store.commit(3, 1);
    assert_eq!(store.settle().len(), 1);
    store.commit(3, 1);
    assert_eq!(store.settle().len(), 0);
    assert_eq!(store.apply.messages_consumed(0), 1);
    assert_eq!(store.apply.current_prefix().id, 3);
    let hash = store.table.get_partition_and_key_hash(b"a").1;
    assert_eq!(store.shard.get(hash), Some(&b"1".to_vec()));
}

#[test]
fn prefix_regression_is_dropped() {
    let mut stage = ApplyStage::<2>::new();
    assert!(stage.is_finished());
    assert!(stage.offer_prefix(Prefix { id: 5, states: [MessageId(0), MessageId(0)] }));
    // The id does not grow.
    assert!(!stage.offer_prefix(Prefix { id: 5, states: [MessageId(1), MessageId(0)] }));
    assert!(!stage.offer_prefix(Prefix { id: 4, states: [MessageId(1), MessageId(0)] }));
    assert!(stage.offer_prefix(Prefix { id: 6, states: [MessageId(2), MessageId(1)] }));
    assert_eq!(stage.demand(), Some((0, 2)));
    // A prefix in progress is not replaced.
    assert!(!stage.offer_prefix(Prefix { id: 7, states: [MessageId(3), MessageId(1)] }));
    assert_eq!(stage.current_prefix().id, 6);
}

#[test]
fn marks_must_not_fall() {
    let mut stage = ApplyStage::<2>::new();
    let table = PartitionedHashMap::<1>::new();
    let mut state: HashMap<u64, Vec<u8>> = HashMap::new();
    assert!(stage.offer_prefix(Prefix { id: 1, states: [MessageId(1), MessageId(0)] }));
    let routed = route_messages(&table, vec![byte_get(0, b"k")]);
    let acks = stage.apply_messages_for_client_id(0, 0, routed, &mut state);
    assert_eq!(acks.len(), 1);
    assert!(stage.is_finished());
    assert!(!stage.offer_prefix(Prefix { id: 2, states: [MessageId(0), MessageId(5)] }));
    assert!(stage.offer_prefix(Prefix { id: 2, states: [MessageId(1), MessageId(5)] }));
    assert_eq!(stage.demand(), Some((1, 5)));
}

#[test]
fn clients_are_served_in_order() {
    let mut stage = ApplyStage::<3>::new();
    let table = PartitionedHashMap::<1>::new();
    let mut state: HashMap<u64, Vec<u8>> = HashMap::new();
    assert_eq!(stage.demand(), None);
    assert!(stage.offer_prefix(Prefix {
        id: 0,
        states: [MessageId(0), MessageId(2), MessageId(1)],
    }));
    assert_eq!(stage.demand(), Some((1, 2)));
    let routed = route_messages(&table, vec![byte_put(0, b"k", b"v")]);
    let acks = stage.apply_messages_for_client_id(1, 0, routed, &mut state);
    assert_eq!(acks.len(), 1);
    assert_eq!(stage.demand(), Some((1, 1)));
    let routed = route_messages(&table, vec![byte_get(1, b"k")]);
    let acks = stage.apply_messages_for_client_id(1, 0, routed, &mut state);
    assert_eq!(acks[0].extension, AckMessageExtensions::Get(Some(b"v".to_vec())));
    assert_eq!(stage.demand(), Some((2, 1)));
    assert!(!stage.is_finished());
    let routed = route_messages(&table, vec![byte_delete(0, b"k")]);
    let acks = stage.apply_messages_for_client_id(2, 0, routed, &mut state);
    assert_eq!(acks[0].extension, AckMessageExtensions::Delete(Some(b"v".to_vec())));
    assert_eq!(stage.demand(), None);
    assert!(stage.is_finished());
    assert_eq!(stage.messages_consumed(0), 0);
    assert_eq!(stage.messages_consumed(1), 2);
    assert_eq!(stage.messages_consumed(2), 1);
}

#[test]
fn routing_keeps_the_message() {
    let table = PartitionedHashMap::<4>::new();
    let routed = route_message(&table, byte_put(7, b"key", b"value"));
    let (partition, hash) = table.get_partition_and_key_hash(b"key");
    assert_eq!(routed.partition, partition);
    assert_eq!(routed.message.client_id, ClientId(0));
    assert_eq!(routed.message.message_id, MessageId(7));
    match routed.message.operation {
        ClientMessageOperation::Put { key, value } => {
            assert_eq!(key, hash);
            assert_eq!(value, b"value".to_vec());
        }
        _ => panic!("the operation changed its kind"),
    }
    let routed = route_message(&table, byte_get(8, b"key"));
    assert!(matches!(routed.message.operation, ClientMessageOperation::Get { key } if key == hash));
    let routed = route_message(&table, byte_delete(9, b"key"));
    assert!(
        matches!(routed.message.operation, ClientMessageOperation::Delete { key } if key == hash)
    );
}

#[test]
fn partitioned_write_routing() {
    const PARTITIONS: usize = 4;
    let mut table = PartitionedHashMap::<PARTITIONS>::new();
    let mut handles = PartitionedHashMap::create_all_handles(&mut table);
    // One key for each partition.
    let mut keys: Vec<Option<Vec<u8>>> = vec![None; PARTITIONS];
    let mut candidate = 0u32;
    while keys.iter().any(|k| k.is_none()) {
        let key = candidate.to_le_bytes().to_vec();
        let (partition, _) = table.get_partition_and_key_hash(&key);
        if keys[partition].is_none() {
            keys[partition] = Some(key);
        }
        candidate += 1;
    }
    let keys: Vec<Vec<u8>> = keys.into_iter().map(|k| k.unwrap()).collect();
    for partition in 0..PARTITIONS {
        let mut stage = ApplyStage::<1>::new();
        assert!(stage.offer_prefix(Prefix { id: 0, states: [MessageId(4)] }));
        let messages: Vec<ByteLogMessage> =
            keys.iter().enumerate().map(|(i, k)| byte_put(i as u32, k, &[i as u8])).collect();
        let routed = route_messages(&table, messages);
        let shard = handles[partition].as_mut().unwrap();
        let acks = stage.apply_messages_for_client_id(0, partition, routed, shard);
        assert_eq!(acks.len(), 1);
        assert_eq!(acks[0].message_id, MessageId(partition as u32));
        assert_eq!(acks[0].extension, AckMessageExtensions::Put(None));
        assert_eq!(stage.messages_consumed(0), 4);
        assert!(stage.is_finished());
        assert_eq!(shard.len(), 1);
        let hash = table.get_partition_and_key_hash(&keys[partition]).1;
        assert_eq!(shard.get(hash), Some(&vec![partition as u8]));
    }
}

#[test]
fn acks_wait_for_room() {
    let (mut to_apply, apply_in) = rtrb::RingBuffer::new(8);
    let (mut prefixes, mut prefix_in) = rtrb::RingBuffer::new(8);
    let (mut acks_out, mut acks) = rtrb::RingBuffer::new(1);
    let mut channels = vec![apply_in];
    let mut table = PartitionedHashMap::<1>::new();
    let mut shard = PartitionedHashMap::create_all_handles(&mut table).pop().unwrap().unwrap();
    let mut stage = ApplyStage::<1>::new();
    let mut outbox = VecDeque::new();
    for i in 0..3u32 {
        to_apply.push(byte_put(i, b"k", &[i as u8])).unwrap();
    }
    prefixes.push(Prefix { id: 0, states: [MessageId(3)] }).unwrap();
    let report = apply_messages_pipeline(
        &mut channels, &mut prefix_in, &mut acks_out, &table, 0, &mut stage, &mut outbox,
        &mut shard,
    );
    assert_eq!(report.status, TurnStatus::Progress);
    assert_eq!((report.received, report.forwarded), (0, 0));
    let report = apply_messages_pipeline(
        &mut channels, &mut prefix_in, &mut acks_out, &table, 0, &mut stage, &mut outbox,
        &mut shard,
    );
    assert_eq!(report.status, TurnStatus::Blocked);
    assert_eq!((report.received, report.forwarded), (3, 1));
    assert_eq!(outbox.len(), 2);
    assert_eq!(acks.pop().unwrap().extension, AckMessageExtensions::Put(None));
    let report = apply_messages_pipeline(
        &mut channels, &mut prefix_in, &mut acks_out, &table, 0, &mut stage, &mut outbox,
        &mut shard,
    );
    assert_eq!(report.status, TurnStatus::Blocked);
    assert_eq!(acks.pop().unwrap().extension, AckMessageExtensions::Put(Some(vec![0])));
    let report = apply_messages_pipeline(
        &mut channels, &mut prefix_in, &mut acks_out, &table, 0, &mut stage, &mut outbox,
        &mut shard,
    );
    assert_eq!(report.status, TurnStatus::Progress);
    assert_eq!(acks.pop().unwrap().extension, AckMessageExtensions::Put(Some(vec![1])));
    drop(prefixes);
    let report = apply_messages_pipeline(
        &mut channels, &mut prefix_in, &mut acks_out, &table, 0, &mut stage, &mut outbox,
        &mut shard,
    );
    assert_eq!(report.status, TurnStatus::Done);
    assert_eq!(shard.len(), 1);
}

fn shuffled_puts(num_messages: usize, first: u32) -> Vec<ByteLogMessage> {
    let mut messages: Vec<ByteLogMessage> = (first..first + num_messages as u32)
        .map(|i| byte_put(i, &rand::random::<u32>().to_le_bytes(), &i.to_le_bytes()))
        .collect();
    messages.shuffle(&mut rand::thread_rng());
    messages
}

/// The rings and stages of one client and one shard, with rings of
/// `capacity` values.
struct Pipeline {
    write: rtrb::Producer<ByteLogMessage>,
    order_in: rtrb::Consumer<ByteLogMessage>,
    order_out: rtrb::Producer<ByteLogMessage>,
    apply_in: Vec<rtrb::Consumer<ByteLogMessage>>,
    prefix_write: rtrb::Producer<Prefix<1>>,
    prefix_in: rtrb::Consumer<Prefix<1>>,
    acks_out: rtrb::Producer<AckMessage<Vec<u8>>>,
    read: rtrb::Consumer<AckMessage<Vec<u8>>>,
    order: OrderStage<Vec<u8>, Vec<u8>>,
    apply: ApplyStage<1>,
    outbox: VecDeque<AckMessage<Vec<u8>>>,
    table: PartitionedHashMap<1>,
    state: HashMap<u64, Vec<u8>>,
}

impl Pipeline {
    fn new(capacity: usize) -> Pipeline {
        let (write, order_in) = rtrb::RingBuffer::new(capacity);
        let (order_out, apply_in) = rtrb::RingBuffer::new(capacity);
        let (prefix_write, prefix_in) = rtrb::RingBuffer::new(capacity);
        let (acks_out, read) = rtrb::RingBuffer::new(capacity);
        Pipeline {
            write,
            order_in,
            order_out,
            apply_in: vec![apply_in],
            prefix_write,
            prefix_in,
            acks_out,
            read,
            order: OrderStage::new(0),
            apply: ApplyStage::new(),
            outbox: VecDeque::new(),
            table: PartitionedHashMap::new(),
            state: HashMap::new(),
        }
    }

    fn turn(&mut self) {
        order_messages(&mut self.order_in, &mut self.order_out, &mut self.order);
        apply_messages_pipeline(
            &mut self.apply_in,
            &mut self.prefix_in,
            &mut self.acks_out,
            &self.table,
            0,
            &mut self.apply,
            &mut self.outbox,
            &mut self.state,
        );
    }
}

#[test]
fn order_apply_messages() {
    const NUM_MESSAGES: usize = 1_000;
    let mut pipeline = Pipeline::new(NUM_MESSAGES);
    let messages = shuffled_puts(NUM_MESSAGES, 0);
    let mut current_prefix = Prefix::<1>::new(0);
    current_prefix.states[0] = MessageId(NUM_MESSAGES as u32);
    pipeline.prefix_write.push(current_prefix).unwrap();
    let mut num_written = 0;
    for m in messages {
        pipeline.write.push(m).unwrap();
        num_written += 1;
    }
    assert_eq!(NUM_MESSAGES, num_written, "Not all messages were written.");
    let mut to_get = NUM_MESSAGES;
    let mut expected = 0;
    while to_get > 0 {
        pipeline.turn();
        while let Ok(ack) = pipeline.read.pop() {
            assert_eq!(ack.message_id, MessageId(expected));
            expected += 1;
            to_get -= 1;
        }
    }
    assert_eq!(pipeline.apply.messages_consumed(0), NUM_MESSAGES as u32);
}

#[test]
fn order_apply_messages_with_prefixes() {
    const NUM_MESSAGES: usize = 10;
    const NUM_ROUNDS: usize = 4;
    let mut pipeline = Pipeline::new(NUM_MESSAGES);
    for round in 0..NUM_ROUNDS {
        assert_eq!(
            NUM_MESSAGES,
            pipeline.write.slots(),
            "pipeline write handle not empty on round {round}",
        );
        assert!(pipeline.read.is_empty(), "Pipeline read handle not empty on round {round}");
        let messages = shuffled_puts(NUM_MESSAGES, (round * NUM_MESSAGES) as u32);
        let mut num_written = 0;
        for m in messages {
            pipeline.write.push(m).unwrap();
            num_written += 1;
        }
        assert_eq!(NUM_MESSAGES, num_written, "Not all messages were written.");
        for _ in 0..8 {
            pipeline.turn();
        }
        assert_eq!(0, pipeline.read.slots(), "Not everything was ready from the pipeline");
        pipeline
            .prefix_write
            .push(Prefix { id: round as u64, states: [MessageId((NUM_MESSAGES * (round + 1)) as u32)] })
            .unwrap();
        let mut to_get = NUM_MESSAGES;
        while to_get > 0 {
            pipeline.turn();
            while pipeline.read.pop().is_ok() {
                to_get -= 1;
            }
        }
        let num_ordered = pipeline.order.next_holder();
        let expected_num_ordered = ((round + 1) * NUM_MESSAGES) as u32;
        assert_eq!(expected_num_ordered, num_ordered);
        assert_eq!(pipeline.apply.messages_consumed(0), expected_num_ordered);
    }
}
