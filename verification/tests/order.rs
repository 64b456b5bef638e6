use rand::seq::SliceRandom;
use thesis::message::client_message::{
    ClientId, ClientLogMessage, ClientMessageOperation, MessageId,
};
use thesis::workers::order_messages::{
    order_messages, process_batch, process_batch_with_tree_map, OrderStage, ReorderBuffer,
    TurnStatus,
};

type Msg = ClientLogMessage<u32, u32>;

fn message(id: u32, key: u32) -> Msg {
    ClientLogMessage {
        client_id: ClientId(0),
        message_id: MessageId(id),
        operation: ClientMessageOperation::Get { key },
    }
}

fn ids(messages: &[Msg]) -> Vec<u32> {
    messages.iter().map(|m| m.message_id.0).collect()
}

fn keys(messages: &[Msg]) -> Vec<u32> {
    messages.iter().map(|m| *m.operation.get_key()).collect()
}

#[test]
fn out_of_order_input_is_reordered() {
    let mut buffer = ReorderBuffer::new(0);
    let out = process_batch_with_tree_map(
        &mut buffer,
        vec![message(2, 0), message(0, 0), message(1, 0)],
    );
    assert_eq!(ids(&out), vec![0, 1, 2]);
    assert_eq!(buffer.next_expected(), 3);
    assert!(buffer.is_empty());
}

#[test]
fn one_by_one_gives_the_same_order() {
    let mut buffer = ReorderBuffer::new(0);
    let out = process_batch(&mut buffer, vec![message(2, 0), message(0, 0), message(1, 0)]);
    assert_eq!(ids(&out), vec![0, 1, 2]);
    assert_eq!(buffer.next_expected(), 3);
    assert_eq!(buffer.pending_len(), 0);
}

#[test]
fn gap_holds_back_later_messages() {
    let mut buffer = ReorderBuffer::new(0);
    let out = process_batch_with_tree_map(&mut buffer, vec![message(3, 0), message(1, 0)]);
    assert_eq!(out.len(), 0);
    assert_eq!(buffer.next_expected(), 0);
    assert_eq!(buffer.pending_len(), 2);
    let out = process_batch_with_tree_map(&mut buffer, vec![message(0, 0)]);
    assert_eq!(ids(&out), vec![0, 1]);
    assert_eq!(buffer.next_expected(), 2);
    let out = process_batch_with_tree_map(&mut buffer, vec![message(2, 0)]);
    assert_eq!(ids(&out), vec![2, 3]);
    assert_eq!(buffer.next_expected(), 4);
    assert!(buffer.is_empty());
}

#[test]
fn first_duplicate_wins() {
    let mut buffer = ReorderBuffer::new(0);
    let out = process_batch_with_tree_map(
        &mut buffer,
        vec![message(1, 10), message(1, 20), message(0, 30), message(0, 40)],
    );
    assert_eq!(ids(&out), vec![0, 1]);
    assert_eq!(keys(&out), vec![30, 10]);
    let mut buffer = ReorderBuffer::new(0);
    assert!(buffer.insert(message(5, 1)));
    assert!(!buffer.insert(message(5, 2)));
    assert_eq!(buffer.pending_len(), 1);
}

#[test]
fn stale_messages_are_dropped() {
    let mut buffer = ReorderBuffer::new(5);
    assert!(!buffer.insert(message(4, 0)));
    assert!(!buffer.insert(message(0, 0)));
    assert_eq!(buffer.pending_len(), 0);
    let out = process_batch_with_tree_map(&mut buffer, vec![message(3, 0), message(5, 7)]);
    assert_eq!(ids(&out), vec![5]);
    assert_eq!(buffer.next_expected(), 6);
    let out = process_batch(&mut buffer, vec![message(5, 8), message(6, 9), message(6, 10)]);
    assert_eq!(ids(&out), vec![6]);
    assert_eq!(keys(&out), vec![9]);
}

#[test]
fn start_is_the_first_id_handed_on() {
    let mut buffer = ReorderBuffer::new(100);
    let out = process_batch_with_tree_map(
        &mut buffer,
        vec![message(102, 0), message(101, 0), message(100, 0)],
    );
    assert_eq!(ids(&out), vec![100, 101, 102]);
    assert_eq!(buffer.next_expected(), 103);
}

#[test]
fn ids_wrap_around() {
    let mut buffer = ReorderBuffer::new(u32::MAX - 1);
    let out = process_batch_with_tree_map(
        &mut buffer,
        vec![message(u32::MAX, 0), message(u32::MAX - 1, 0)],
    );
    assert_eq!(ids(&out), vec![u32::MAX - 1, u32::MAX]);
    assert_eq!(buffer.next_expected(), 0);
    let out = process_batch_with_tree_map(&mut buffer, vec![message(0, 0)]);
    assert_eq!(ids(&out), vec![0]);
    assert_eq!(buffer.next_expected(), 1);
    assert_eq!(MessageId(u32::MAX).next(), MessageId(0));
    assert_eq!(MessageId(41).next(), MessageId(42));
}

#[test]
fn release_alone_hands_on_what_is_due() {
    let mut buffer = ReorderBuffer::new(0);
    buffer.insert(message(1, 0));
    buffer.insert(message(0, 0));
    buffer.insert(message(3, 0));
    let out = buffer.release();
    assert_eq!(ids(&out), vec![0, 1]);
    assert_eq!(buffer.next_expected(), 2);
    assert_eq!(buffer.pending_len(), 1);
    assert_eq!(buffer.release().len(), 0);
}

fn drain(ring: &mut rtrb::Consumer<Msg>) -> Vec<Msg> {
    let mut out = Vec::new();
    while let Ok(m) = ring.pop() {
        out.push(m);
    }
    out
}

#[test]
fn single_client_msg_reorder_test() {
    const NUM_MESSAGES: usize = 1_000;
    let (mut pipeline_write_handle, mut input_channel) = rtrb::RingBuffer::new(NUM_MESSAGES);
    let (mut output_channel, mut pipeline_read_handle) = rtrb::RingBuffer::new(NUM_MESSAGES);
    let mut stage = OrderStage::new(0);
    let mut messages: Vec<Msg> = (0..NUM_MESSAGES as u32).map(|i| message(i, i)).collect();
    messages.shuffle(&mut rand::thread_rng());
    let mut num_written = 0;
    for m in messages {
        pipeline_write_handle.push(m).unwrap();
        num_written += 1;
    }
    assert_eq!(NUM_MESSAGES, num_written, "Not all messages were written.");
    drop(pipeline_write_handle);
    loop {
        let report = order_messages(&mut input_channel, &mut output_channel, &mut stage);
        if report.status == TurnStatus::Done {
            break;
        }
    }
    let read = drain(&mut pipeline_read_handle);
    assert_eq!(NUM_MESSAGES, read.len(), "Not all messages were ordered and sent onward.");
    assert_eq!(ids(&read), (0..NUM_MESSAGES as u32).collect::<Vec<u32>>());
    assert!(pipeline_read_handle.is_empty(), "Did not consumer entire buffer");
    assert_eq!(NUM_MESSAGES as u32, stage.next_holder(), "Next holder was not updated");
}

#[test]
fn order_stage_waits_for_room() {
    let (mut write, mut input) = rtrb::RingBuffer::new(8);
    let (mut output, mut read) = rtrb::RingBuffer::new(2);
    let mut stage = OrderStage::new(0);
    for id in [3u32, 1, 0, 2] {
        write.push(message(id, id)).unwrap();
    }
    let report = order_messages(&mut input, &mut output, &mut stage);
    assert_eq!(report.status, TurnStatus::Blocked);
    assert_eq!(report.received, 4);
    assert_eq!(report.forwarded, 2);
    assert_eq!(stage.next_holder(), 2);
    // Nothing moves while the outgoing ring is full.
    let report = order_messages(&mut input, &mut output, &mut stage);
    assert_eq!(report.status, TurnStatus::Blocked);
    assert_eq!(report.forwarded, 0);
    assert_eq!(ids(&drain(&mut read)), vec![0, 1]);
    let report = order_messages(&mut input, &mut output, &mut stage);
    assert_eq!(report.status, TurnStatus::Progress);
    assert_eq!(report.received, 0);
    assert_eq!(report.forwarded, 2);
    assert_eq!(stage.next_holder(), 4);
    assert_eq!(ids(&drain(&mut read)), vec![2, 3]);
    let report = order_messages(&mut input, &mut output, &mut stage);
    assert_eq!(report.status, TurnStatus::Idle);
    drop(write);
    let report = order_messages(&mut input, &mut output, &mut stage);
    assert_eq!(report.status, TurnStatus::Done);
    assert_eq!(stage.buffered(), 0);
}

#[test]
fn order_stage_is_not_done_while_messages_wait_for_a_gap() {
    let (mut write, mut input) = rtrb::RingBuffer::new(8);
    let (mut output, _read) = rtrb::RingBuffer::new(8);
    let mut stage = OrderStage::new(0);
    write.push(message(1, 0)).unwrap();
    drop(write);
    let report = order_messages(&mut input, &mut output, &mut stage);
    assert_eq!(report.received, 1);
    assert_eq!(report.forwarded, 0);
    let report = order_messages(&mut input, &mut output, &mut stage);
    assert_eq!(report.status, TurnStatus::Idle);
    assert_eq!(stage.buffered(), 1);
    assert_eq!(stage.next_holder(), 0);
}

#[test]
fn rounds_of_shuffled_messages() {
    const NUM_MESSAGES: usize = 200;
    const NUM_ROUNDS: usize = 5;
    let (mut write, mut input) = rtrb::RingBuffer::new(NUM_MESSAGES);
    let (mut output, mut read) = rtrb::RingBuffer::new(NUM_MESSAGES);
    let mut stage = OrderStage::new(0);
    for round in 0..NUM_ROUNDS {
        let first = (round * NUM_MESSAGES) as u32;
        let mut messages: Vec<Msg> =
            (first..first + NUM_MESSAGES as u32).map(|i| message(i, i)).collect();
        messages.shuffle(&mut rand::thread_rng());
        for m in messages {
            write.push(m).unwrap();
        }
        let mut got = Vec::new();
        while got.len() < NUM_MESSAGES {
            order_messages(&mut input, &mut output, &mut stage);
            got.extend(drain(&mut read));
        }
        assert_eq!(ids(&got), (first..first + NUM_MESSAGES as u32).collect::<Vec<u32>>());
        assert_eq!(stage.next_holder(), ((round + 1) * NUM_MESSAGES) as u32);
    }
}

fn get_sequence_of_n_messages(num_messages: usize, mut msg_id: u32) -> Vec<Msg> {
    let mut v = Vec::with_capacity(num_messages);
    for _ in 0..num_messages {
        v.push(message(msg_id, rand::random::<u32>()));
        msg_id += 1;
    }
    v
}

fn get_sequence_of_n_shuffled_messages(num_messages: usize, starting_message_id: u32) -> Vec<Msg> {
    let mut messages = get_sequence_of_n_messages(num_messages, starting_message_id);
    messages.shuffle(&mut rand::thread_rng());
    messages
}

fn single_client_msg_reorder_test_multiple_round(
    num_messages: usize,
    num_rounds: usize,
    messages_function: fn(usize, u32) -> Vec<Msg>,
) {
    let (mut pipeline_write_handle, mut input_channel) = rtrb::RingBuffer::new(num_messages);
    let (mut output_channel, mut pipeline_read_handle) = rtrb::RingBuffer::new(num_messages);
    let mut stage = OrderStage::new(0);
    for round in 0..num_rounds {
        let messages = messages_function(num_messages, (num_messages * round) as u32);
        let mut num_written = 0;
        for m in messages {
            pipeline_write_handle.push(m).unwrap();
            num_written += 1;
        }
        assert_eq!(num_messages, num_written, "Not all messages were written in round {round}.");
        let mut remaining_messages = num_messages;
        while remaining_messages > 0 {
            order_messages(&mut input_channel, &mut output_channel, &mut stage);
            remaining_messages -= drain(&mut pipeline_read_handle).len();
        }
        assert!(pipeline_read_handle.is_empty(), "Queue was not emptied in round {round}");
        let order_messages_processed = stage.next_holder();
        let expected_messages_processed = ((round + 1) * num_messages) as u32;
        assert_eq!(expected_messages_processed, order_messages_processed);
    }
    drop(pipeline_write_handle);
    loop {
        let report = order_messages(&mut input_channel, &mut output_channel, &mut stage);
        if report.status == TurnStatus::Done {
            break;
        }
    }
    assert!(pipeline_read_handle.is_empty(), "Did not consumer entire buffer");
}

#[test]
fn single_client_msg_reorder_test_multiple_round_randomized() {
    const NUM_MESSAGES: usize = 10_000;
    const NUM_ROUNDS: usize = 10;
    single_client_msg_reorder_test_multiple_round(
        NUM_MESSAGES,
        NUM_ROUNDS,
        get_sequence_of_n_shuffled_messages,
    )
}

#[test]
fn single_client_msg_reorder_test_multiple_round_sorted_input() {
    const NUM_MESSAGES: usize = 10_000;
    const NUM_ROUNDS: usize = 10;
    single_client_msg_reorder_test_multiple_round(
        NUM_MESSAGES,
        NUM_ROUNDS,
        get_sequence_of_n_messages,
    )
}
