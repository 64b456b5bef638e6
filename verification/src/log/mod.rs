//! The log of client messages.

pub mod client_log_manager;
pub mod slab_list;

use vstd::prelude::*;
use std::cmp::Ordering;
use crate::message::client_message::{ClientId, MessageId, MessageTimestamp};
use crate::message::message_packet::ClientMessage;

verus! {

/// A message as the log keeps it.
#[derive(Debug, Clone, Copy)]
pub struct LogMessage {
    timestamp: MessageTimestamp,
    client_id: ClientId,
    message_id: MessageId,
    message: ClientMessage,
}

/// The tag of a logged message: the message id in bits 96..128, the client
/// id in bits 64..96 and the timestamp in bits 0..64.
pub open spec fn spec_log_tag(message_id: u32, client_id: u32, timestamp: u64) -> u128 {
    (message_id as u128 * 0x1_0000_0000_0000_0000_0000_0000 + client_id as u128
        * 0x1_0000_0000_0000_0000 + timestamp as u128) as u128
}

/// Tags order logged messages by message id, then client id, then timestamp.
pub proof fn lemma_log_tag_order(m1: u32, c1: u32, t1: u64, m2: u32, c2: u32, t2: u64)
    ensures
        spec_log_tag(m1, c1, t1) < spec_log_tag(m2, c2, t2) <==> (m1 < m2 || (m1 == m2 && (c1 < c2
            || (c1 == c2 && t1 < t2)))),
        spec_log_tag(m1, c1, t1) == spec_log_tag(m2, c2, t2) <==> (m1 == m2 && c1 == c2 && t1
            == t2),
{
}

impl LogMessage {
    /// The message that `client_id` sent under `message_id`, stamped
    /// `timestamp`.
    pub fn new(
        timestamp: MessageTimestamp,
        client_id: ClientId,
        message_id: MessageId,
        message: ClientMessage,
    ) -> (logged: Self)
        ensures
            logged.spec_timestamp() == timestamp,
            logged.spec_client_id() == client_id,
            logged.spec_message_id() == message_id,
            logged.spec_message() == message,
    {
        LogMessage { timestamp, client_id, message_id, message }
    }

    /// When the message was stamped.
    pub closed spec fn spec_timestamp(&self) -> MessageTimestamp {
        self.timestamp
    }

    /// Who sent the message.
    pub closed spec fn spec_client_id(&self) -> ClientId {
        self.client_id
    }

    /// The place of the message in its client's stream.
    pub closed spec fn spec_message_id(&self) -> MessageId {
        self.message_id
    }

    /// What the message asks.
    pub closed spec fn spec_message(&self) -> ClientMessage {
        self.message
    }

    /// The tag of the message, as a specification.
    pub open spec fn spec_tag(&self) -> u128 {
        spec_log_tag(self.spec_message_id().0, self.spec_client_id().0, self.spec_timestamp())
    }

    /// Packs message id, client id and timestamp into one number.
    pub fn tag(&self) -> (packed: u128)
        ensures
            packed == self.spec_tag(),
    {
        let high: u128 = 0x1_0000_0000_0000_0000_0000_0000;
        let mid: u128 = 0x1_0000_0000_0000_0000;
        (self.message_id.0 as u128) * high + (self.client_id.0 as u128) * mid + (
        self.timestamp as u128)
    }
}

impl PartialEq for LogMessage {
    fn eq(&self, other: &Self) -> (equal: bool) {
        self.tag() == other.tag()
    }
}

impl vstd::std_specs::cmp::PartialEqSpecImpl for LogMessage {
    open spec fn obeys_eq_spec() -> bool {
        true
    }

    open spec fn eq_spec(&self, other: &Self) -> bool {
        self.spec_tag() == other.spec_tag()
    }
}

impl Eq for LogMessage {

}

impl PartialOrd for LogMessage {
    fn partial_cmp(&self, other: &Self) -> (order: Option<Ordering>) {
        let mine = self.tag();
        let theirs = other.tag();
        if mine < theirs {
            Some(Ordering::Less)
        } else if mine == theirs {
            Some(Ordering::Equal)
        } else {
            Some(Ordering::Greater)
        }
    }
}

impl vstd::std_specs::cmp::PartialOrdSpecImpl for LogMessage {
    open spec fn obeys_partial_cmp_spec() -> bool {
        true
    }

    open spec fn partial_cmp_spec(&self, other: &Self) -> Option<Ordering> {
        if self.spec_tag() < other.spec_tag() {
            Some(Ordering::Less)
        } else if self.spec_tag() == other.spec_tag() {
            Some(Ordering::Equal)
        } else {
            Some(Ordering::Greater)
        }
    }
}

} // verus!
