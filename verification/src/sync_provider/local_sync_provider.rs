//! A source of commit prefixes for a store that is not replicated.

use vstd::prelude::*;
use crate::message::client_message::MessageId;
use crate::prefix::Prefix;

verus! {

/// Commits whatever the order stages have handed on: each tick gives the
/// prefix whose marks are the `next` counters of the clients, as they were
/// reported last, under the next prefix id.
pub struct LocalSyncProvider<const NUM_CLIENTS: usize> {
    id: u64,
    message_states: [MessageId; NUM_CLIENTS],
}

impl<const NUM_CLIENTS: usize> LocalSyncProvider<NUM_CLIENTS> {
    /// The id of the prefix given last; zero before the first tick.
    pub closed spec fn last_id(&self) -> u64 {
        self.id
    }

    /// The `next` counter of client `c`, as it was reported last.
    pub closed spec fn reported(&self, c: int) -> MessageId {
        self.message_states[c]
    }

    /// A provider that has given no prefix and has been told of no message.
    pub fn new() -> (provider: Self)
        ensures
            provider.last_id() == 0,
            forall|c: int| 0 <= c < NUM_CLIENTS ==> (#[trigger] provider.reported(c)).0 == 0,
    {
        LocalSyncProvider { id: 0, message_states: [MessageId(0);NUM_CLIENTS] }
    }

    /// Takes note of the `next` counter of one client.
    pub fn report(&mut self, client: usize, next: MessageId)
        requires
            client < NUM_CLIENTS,
        ensures
            final(self).last_id() == old(self).last_id(),
            final(self).reported(client as int) == next,
            forall|c: int|
                0 <= c < NUM_CLIENTS && c != client ==> final(self).reported(c) == old(
                    self,
                ).reported(c),
    {
        self.message_states[client] = next;
    }

    /// The next prefix: its id is one more than that of the prefix given
    /// last, and its marks are the counters reported last.
    pub fn tick(&mut self) -> (prefix: Prefix<NUM_CLIENTS>)
        requires
            old(self).last_id() < u64::MAX,
        ensures
            final(self).last_id() == old(self).last_id() + 1,
            prefix.id == final(self).last_id(),
            forall|c: int|
                0 <= c < NUM_CLIENTS ==> #[trigger] prefix.states[c] == old(self).reported(c),
            forall|c: int|
                0 <= c < NUM_CLIENTS ==> final(self).reported(c) == old(self).reported(c),
    {
        self.id = self.id + 1;
        Prefix { id: self.id, states: self.message_states }
    }
}

} // verus!
