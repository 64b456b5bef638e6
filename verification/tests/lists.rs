use thesis::log::client_log_manager::ClientLogManager;
use thesis::log::slab_list::SlabList as LogSlabList;
use thesis::log::LogMessage;
use thesis::message::client_message::{
    ClientId, ClientLogMessage, ClientMessageOperation, MessageId,
};
use thesis::message::message_packet::ClientMessage;
use thesis::slab_list::SlabList;

#[test]
fn log_slab_list_starts_without_slabs() {
    let mut list: LogSlabList<u32, 4> = LogSlabList::new();
    assert_eq!(list.iter().len(), 0);
    for index in [0usize, 1, 3, 4, 5, 100] {
        assert_eq!(list.get(index), None);
        assert_eq!(list.get_mut(index), None);
        assert!(list.iter_mut(index).is_none());
    }
    let list: LogSlabList<u32, 4> = LogSlabList::default();
    assert_eq!(list.iter().len(), 0);
}

#[test]
fn slab_list_starts_with_one_empty_slab() {
    let list: SlabList<u32, 4> = SlabList::new();
    for index in 0..4 {
        assert_eq!(list.get(index), None);
    }
}

#[test]
fn insert_at_fills_the_slot() {
    let mut list: SlabList<&str, 3> = SlabList::new();
    list.insert_at(1, "one");
    assert_eq!(list.get(0), None);
    assert_eq!(list.get(1), Some(&"one"));
    assert_eq!(list.get(2), None);
    list.insert_at(1, "uno");
    list.insert_at(2, "two");
    assert_eq!(list.get(1), Some(&"uno"));
    assert_eq!(list.get(2), Some(&"two"));
    list.insert_at(0, "zero");
    assert_eq!(list.get(0), Some(&"zero"));
}

#[test]
fn log_tags_pack_id_client_and_stamp() {
    let message = LogMessage::new(3, ClientId(2), MessageId(1), ClientMessage::Get { key: 0 });
    assert_eq!(message.tag(), (1u128 << 96) | (2u128 << 64) | 3);
    let largest = LogMessage::new(
        u64::MAX,
        ClientId(u32::MAX),
        MessageId(u32::MAX),
        ClientMessage::Put { key: 1, value: 2 },
    );
    assert_eq!(largest.tag(), u128::MAX);
}

#[test]
fn log_messages_compare_by_tag() {
    let get = ClientMessage::Get { key: 0 };
    let put = ClientMessage::Put { key: 5, value: 6 };
    let a = LogMessage::new(9, ClientId(1), MessageId(1), get);
    let same = LogMessage::new(9, ClientId(1), MessageId(1), put);
    let later_stamp = LogMessage::new(10, ClientId(1), MessageId(1), get);
    let other_client = LogMessage::new(0, ClientId(2), MessageId(1), get);
    let next_id = LogMessage::new(0, ClientId(0), MessageId(2), get);
    assert!(a == same);
    assert!(a != later_stamp);
    assert!(a < later_stamp);
    assert!(later_stamp < other_client);
    assert!(other_client < next_id);
    assert!(next_id > a);
}

fn message(client: u32, id: u32, key: u32) -> ClientLogMessage<u32, u32> {
    ClientLogMessage {
        client_id: ClientId(client),
        message_id: MessageId(id),
        operation: ClientMessageOperation::Get { key },
    }
}

#[test]
fn tags_pack_id_and_client() {
    assert_eq!(message(2, 1, 0).tag(), (1u128 << 32) | 2);
    assert_eq!(message(u32::MAX, u32::MAX, 0).tag(), u64::MAX as u128);
    assert_eq!(message(0, 0, 7).tag(), 0);
}

#[test]
fn messages_compare_by_tag() {
    assert!(message(1, 1, 0) == message(1, 1, 99));
    assert!(message(1, 1, 0) != message(2, 1, 0));
    assert!(message(1, 1, 0) < message(2, 1, 0));
    assert!(message(9, 1, 0) < message(0, 2, 0));
    assert!(message(0, 2, 0) > message(9, 1, 0));
    assert!(message(3, 3, 0) <= message(3, 3, 1));
}

#[test]
fn operations_give_their_key() {
    let get: ClientMessageOperation<u32, u32> = ClientMessageOperation::Get { key: 1 };
    let put: ClientMessageOperation<u32, u32> = ClientMessageOperation::Put { key: 2, value: 9 };
    let delete: ClientMessageOperation<u32, u32> = ClientMessageOperation::Delete { key: 3 };
    assert_eq!(*get.get_key(), 1);
    assert_eq!(*put.get_key(), 2);
    assert_eq!(*delete.get_key(), 3);
}

#[test]
fn managers_listen_on_their_queue() {
    let manager: ClientLogManager<u32, u32> = ClientLogManager::new(3);
    assert_eq!(manager.id(), 3);
    assert_eq!(manager.queue_id(), 3);
    let far: ClientLogManager<u32, u32> = ClientLogManager::new(0x1_0005);
    assert_eq!(far.queue_id(), 5);
}
