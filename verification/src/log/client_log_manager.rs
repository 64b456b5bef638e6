//! Storage of the messages that one manager keeps, client by client.

use vstd::prelude::*;
use crate::message::client_message::ClientLogMessage;

verus! {

/// The number of event queue that a manager listens on.
pub type EventQueueId = u16;

/// How many clients the managers serve together.
pub const MAX_CLIENTS: u32 = 4;

/// How many managers share the clients.
pub const CLIENT_MANAGER_POOL_SIZE: u32 = 1;

/// The event queue of the first manager.
pub const CLIENT_MANAGER_QUEUE_ID_START: EventQueueId = 0;

/// The messages that a manager keeps of one client.
pub type ClientLogManagerStorage<LogKeyType, LogValueType> = Vec<
    ClientLogMessage<LogKeyType, LogValueType>,
>;

/// The number of a manager.
pub type ClientLogManagerId = usize;

/// Keeps the messages of the clients that it serves, one list per client.
pub struct ClientLogManager<LogKeyType, LogValueType> {
    id: ClientLogManagerId,
    queue_id: EventQueueId,
    storage: Vec<ClientLogManagerStorage<LogKeyType, LogValueType>>,
}

impl<LogKeyType, LogValueType> ClientLogManager<LogKeyType, LogValueType> {
    /// The number of the manager.
    pub closed spec fn spec_id(&self) -> ClientLogManagerId {
        self.id
    }

    /// The event queue that the manager listens on.
    pub closed spec fn spec_queue_id(&self) -> EventQueueId {
        self.queue_id
    }

    /// The messages kept, client by client.
    pub closed spec fn storage(&self) -> Seq<Seq<ClientLogMessage<LogKeyType, LogValueType>>> {
        self.storage@.map_values(|list: ClientLogManagerStorage<LogKeyType, LogValueType>| list@)
    }

    /// The manager number `id`: it listens on the queue that lies `id` behind
    /// the first manager's, counted within the 16 bits of a queue number, and
    /// keeps an empty list for each of its clients.
    pub fn new(id: ClientLogManagerId) -> (manager: Self)
        ensures
            manager.spec_id() == id,
            manager.spec_queue_id() == CLIENT_MANAGER_QUEUE_ID_START + id % 0x1_0000,
            manager.storage().len() == MAX_CLIENTS / CLIENT_MANAGER_POOL_SIZE,
            forall|c: int|
                0 <= c < manager.storage().len() ==> (#[trigger] manager.storage()[c]).len() == 0,
    {
        let mut storage: Vec<ClientLogManagerStorage<LogKeyType, LogValueType>> = Vec::new();
        let lists = MAX_CLIENTS / CLIENT_MANAGER_POOL_SIZE;
        let mut c: u32 = 0;
        while c < lists
            invariant
                c <= lists,
                storage@.len() == c,
                forall|d: int| 0 <= d < c ==> (#[trigger] storage@[d])@.len() == 0,
            decreases lists - c,
        {
            storage.push(Vec::new());
            c = c + 1;
        }
        let offset = #[verifier::truncate]
        (id as EventQueueId);
        assert(offset == id % 0x1_0000) by (bit_vector)
            requires
                offset == id as EventQueueId,
        ;
        ClientLogManager { id, queue_id: CLIENT_MANAGER_QUEUE_ID_START + offset, storage }
    }

    /// The number of the manager.
    pub fn id(&self) -> (id: ClientLogManagerId)
        ensures
            id == self.spec_id(),
    {
        self.id
    }

    /// The event queue that the manager listens on.
    pub fn queue_id(&self) -> (queue_id: EventQueueId)
        ensures
            queue_id == self.spec_queue_id(),
    {
        self.queue_id
    }
}

} // verus!
