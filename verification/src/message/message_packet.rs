//! Packets of simple client messages on numeric keys.

use vstd::prelude::*;
use super::client_message::{ClientId, MessageCount, MessageId, MessageTimestamp};

verus! {

/// A key of the numeric store.
pub type LogKey = u32;

/// A value of the numeric store.
pub type LogValue = u32;

/// What a client asks of the numeric store.
#[derive(Debug, Clone, Copy, PartialEq, Eq, Structural)]
pub enum ClientMessage {
    Get { key: LogKey },
    Put { key: LogKey, value: LogValue },
}

/// What a packet says of the messages that it carries: they count
/// `number_of_messages`, and their ids run from `starting_message_id` on.
#[derive(Debug, Clone, Copy)]
pub struct ClientMessagePacketHeader {
    pub timestamp: MessageTimestamp,
    pub client_id: ClientId,
    pub number_of_messages: MessageCount,
    pub starting_message_id: MessageId,
}

/// A packet of messages of one client.
#[derive(Debug, Clone)]
pub struct ClientMessagePacket {
    pub header: ClientMessagePacketHeader,
    pub messages: Vec<ClientMessage>,
}

} // verus!
