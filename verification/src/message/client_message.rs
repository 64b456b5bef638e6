//! Client identifiers, message sequence numbers and the operations a client
//! can ask of the store.

use vstd::prelude::*;

verus! {

/// Number of messages announced by a packet header.
pub type MessageCount = u16;

/// Wall-clock stamp carried by a packet header.
pub type MessageTimestamp = u64;

/// Identifies one client of the store.
#[derive(Debug, Clone, Copy, PartialEq, Eq, PartialOrd, Ord, Hash, Structural)]
pub struct ClientId(pub u32);

/// Sequence number of a message within one client's stream; it wraps modulo 2^32.
#[derive(Debug, Clone, Copy, PartialEq, Eq, PartialOrd, Ord, Hash, Structural)]
pub struct MessageId(pub u32);

/// The successor of `id` in a client's stream: one more, wrapping from the
/// largest 32-bit value back to zero.
pub open spec fn successor(id: u32) -> u32 {
    if id == u32::MAX {
        0
    } else {
        (id + 1) as u32
    }
}

/// The id reached from `id` after `steps` successive messages.
pub open spec fn advance(id: u32, steps: nat) -> u32 {
    ((id as nat + steps) % 0x1_0000_0000) as u32
}

impl MessageId {
    /// The id that follows this one.
    pub fn next(&self) -> (following: MessageId)
        ensures
            following.0 == successor(self.0),
    {
        MessageId(self.0.wrapping_add(1))
    }
}

impl Default for MessageId {
    fn default() -> (id: MessageId)
        ensures
            id.0 == 0,
    {
        MessageId(0)
    }
}

impl View for ClientId {
    type V = u32;

    open spec fn view(&self) -> u32 {
        self.0
    }
}

impl DeepView for ClientId {
    type V = u32;

    open spec fn deep_view(&self) -> u32 {
        self.0
    }
}

impl View for MessageId {
    type V = u32;

    open spec fn view(&self) -> u32 {
        self.0
    }
}

impl DeepView for MessageId {
    type V = u32;

    open spec fn deep_view(&self) -> u32 {
        self.0
    }
}

/// What a client asks the store to do.
#[derive(Debug, Clone)]
pub enum ClientMessageOperation<LogKeyType, LogValueType> {
    Get { key: LogKeyType },
    Put { key: LogKeyType, value: LogValueType },
    Delete { key: LogKeyType },
}

impl<LogKeyType, LogValueType> ClientMessageOperation<LogKeyType, LogValueType> {
    /// The key that the operation addresses, whatever its kind.
    pub open spec fn spec_key(self) -> LogKeyType {
        match self {
            ClientMessageOperation::Get { key } => key,
            ClientMessageOperation::Put { key, value } => key,
            ClientMessageOperation::Delete { key } => key,
        }
    }

    /// The key that the operation addresses.
    pub fn get_key(&self) -> (key: &LogKeyType)
        ensures
            *key == self.spec_key(),
    {
        match self {
            ClientMessageOperation::Get { key } => key,
            ClientMessageOperation::Put { key, value: _ } => key,
            ClientMessageOperation::Delete { key } => key,
        }
    }
}

impl<LogKeyType: DeepView, LogValueType: DeepView> DeepView for ClientMessageOperation<
    LogKeyType,
    LogValueType,
> {
    type V = ClientMessageOperation<LogKeyType::V, LogValueType::V>;

    open spec fn deep_view(&self) -> Self::V {
        match *self {
            ClientMessageOperation::Get { key } => ClientMessageOperation::Get {
                key: key.deep_view(),
            },
            ClientMessageOperation::Put { key, value } => ClientMessageOperation::Put {
                key: key.deep_view(),
                value: value.deep_view(),
            },
            ClientMessageOperation::Delete { key } => ClientMessageOperation::Delete {
                key: key.deep_view(),
            },
        }
    }
}

impl<LogKeyType: DeepView, LogValueType: DeepView> View for ClientMessageOperation<
    LogKeyType,
    LogValueType,
> {
    type V = ClientMessageOperation<LogKeyType::V, LogValueType::V>;

    open spec fn view(&self) -> Self::V {
        self.deep_view()
    }
}

/// One operation of one client, with its place in that client's stream.
#[derive(Debug, Clone)]
pub struct ClientLogMessage<LogKeyType, LogValueType> {
    pub client_id: ClientId,
    pub message_id: MessageId,
    pub operation: ClientMessageOperation<LogKeyType, LogValueType>,
}

/// The tag of the message sent by `client_id` under `message_id`: the message
/// id in bits 32..64 and the client id in bits 0..32.
pub open spec fn spec_tag(message_id: u32, client_id: u32) -> u128 {
    (message_id as u128 * 0x1_0000_0000 + client_id as u128) as u128
}

impl<LogKeyType, LogValueType> ClientLogMessage<LogKeyType, LogValueType> {
    /// Packs the message id and the client id into one number. Tags order
    /// messages by message id first and by client id second; two messages
    /// with equal tags stand for the same message.
    pub fn tag(&self) -> (packed: u128)
        ensures
            packed == spec_tag(self.message_id.0, self.client_id.0),
    {
        (self.message_id.0 as u128) * 0x1_0000_0000u128 + (self.client_id.0 as u128)
    }
}

impl<LogKeyType: DeepView, LogValueType: DeepView> DeepView for ClientLogMessage<
    LogKeyType,
    LogValueType,
> {
    type V = ClientLogMessage<LogKeyType::V, LogValueType::V>;

    open spec fn deep_view(&self) -> Self::V {
        ClientLogMessage {
            client_id: self.client_id,
            message_id: self.message_id,
            operation: self.operation.deep_view(),
        }
    }
}

impl<LogKeyType: DeepView, LogValueType: DeepView> View for ClientLogMessage<
    LogKeyType,
    LogValueType,
> {
    type V = ClientLogMessage<LogKeyType::V, LogValueType::V>;

    open spec fn view(&self) -> Self::V {
        self.deep_view()
    }
}

/// Tags determine their two parts: equal tags mean equal message id and equal
/// client id.
pub proof fn lemma_tag_determines_ids(m1: u32, c1: u32, m2: u32, c2: u32)
    requires
        spec_tag(m1, c1) == spec_tag(m2, c2),
    ensures
        m1 == m2,
        c1 == c2,
{
}

/// Tags order messages by message id first, then by client id.
pub proof fn lemma_tag_orders_by_message_then_client(m1: u32, c1: u32, m2: u32, c2: u32)
    ensures
        spec_tag(m1, c1) < spec_tag(m2, c2) <==> (m1 < m2 || (m1 == m2 && c1 < c2)),
{
}

} // verus!
