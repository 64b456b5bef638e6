//! Acknowledgements: what the store answers for each applied message.

use vstd::prelude::*;
use super::client_message::{ClientId, MessageId};

verus! {

/// What an acknowledgement carries beyond the identity of the message: for a
/// `Get` the current binding of the key, for a `Put` or a `Delete` the binding
/// that the key had before.
#[derive(Debug, Clone, PartialEq, Eq)]
pub enum AckMessageExtensions<LogValueType> {
    Empty,
    Get(Option<LogValueType>),
    Put(Option<LogValueType>),
    Delete(Option<LogValueType>),
}

impl<LogValueType: DeepView> DeepView for AckMessageExtensions<LogValueType> {
    type V = AckMessageExtensions<LogValueType::V>;

    open spec fn deep_view(&self) -> Self::V {
        match *self {
            AckMessageExtensions::Empty => AckMessageExtensions::Empty,
            AckMessageExtensions::Get(binding) => AckMessageExtensions::Get(binding.deep_view()),
            AckMessageExtensions::Put(binding) => AckMessageExtensions::Put(binding.deep_view()),
            AckMessageExtensions::Delete(binding) => AckMessageExtensions::Delete(
                binding.deep_view(),
            ),
        }
    }
}

impl<LogValueType: DeepView> View for AckMessageExtensions<LogValueType> {
    type V = AckMessageExtensions<LogValueType::V>;

    open spec fn view(&self) -> Self::V {
        self.deep_view()
    }
}

/// The answer to one client message.
#[derive(Debug, Clone, PartialEq, Eq)]
pub struct AckMessage<LogValueType> {
    pub client_id: ClientId,
    pub message_id: MessageId,
    pub extension: AckMessageExtensions<LogValueType>,
}

impl<LogValueType> Default for AckMessage<LogValueType> {
    fn default() -> (ack: Self)
        ensures
            ack.client_id.0 == 0,
            ack.message_id.0 == 0,
            ack.extension is Empty,
    {
        AckMessage {
            client_id: ClientId(0),
            message_id: MessageId(0),
            extension: AckMessageExtensions::Empty,
        }
    }
}

impl<LogValueType: DeepView> DeepView for AckMessage<LogValueType> {
    type V = AckMessage<LogValueType::V>;

    open spec fn deep_view(&self) -> Self::V {
        AckMessage {
            client_id: self.client_id,
            message_id: self.message_id,
            extension: self.extension.deep_view(),
        }
    }
}

impl<LogValueType: DeepView> View for AckMessage<LogValueType> {
    type V = AckMessage<LogValueType::V>;

    open spec fn view(&self) -> Self::V {
        self.deep_view()
    }
}

} // verus!
