//! Everything that travels between clients and the store.

pub mod ack;
pub mod client_message;
pub mod decode;
pub mod encode;
pub mod id_arithmetic;
pub mod message_packet;
pub mod tag_order;
pub mod wire;
pub mod wire_laws;

use vstd::prelude::*;
use self::ack::AckMessage;
use self::client_message::ClientLogMessage;

verus! {

/// One message of the wire: an operation sent by a client, or an
/// acknowledgement sent back to one.
#[derive(Debug, Clone)]
pub enum Message<LogKeyType, LogValueType> {
    IncomingClientMessage(ClientLogMessage<LogKeyType, LogValueType>),
    AckMessage(AckMessage<LogValueType>),
}

impl<LogKeyType: DeepView, LogValueType: DeepView> DeepView for Message<LogKeyType, LogValueType> {
    type V = Message<LogKeyType::V, LogValueType::V>;

    open spec fn deep_view(&self) -> Self::V {
        match *self {
            Message::IncomingClientMessage(message) => Message::IncomingClientMessage(
                message.deep_view(),
            ),
            Message::AckMessage(ack) => Message::AckMessage(ack.deep_view()),
        }
    }
}

impl<LogKeyType: DeepView, LogValueType: DeepView> View for Message<LogKeyType, LogValueType> {
    type V = Message<LogKeyType::V, LogValueType::V>;

    open spec fn view(&self) -> Self::V {
        self.deep_view()
    }
}

} // verus!
