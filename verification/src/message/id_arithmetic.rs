//! Sums and differences of message ids.

use vstd::prelude::*;
use std::ops::{Add, Sub};
use super::client_message::MessageId;

verus! {

impl Add for MessageId {
    type Output = MessageId;

    fn add(self, rhs: MessageId) -> (sum: MessageId) {
        MessageId(self.0 + rhs.0)
    }
}

impl vstd::std_specs::ops::AddSpecImpl for MessageId {
    open spec fn obeys_add_spec() -> bool {
        true
    }

    open spec fn add_req(self, rhs: MessageId) -> bool {
        self.0 + rhs.0 <= u32::MAX
    }

    open spec fn add_spec(self, rhs: MessageId) -> MessageId {
        MessageId((self.0 + rhs.0) as u32)
    }
}

impl Sub for MessageId {
    type Output = MessageId;

    fn sub(self, rhs: MessageId) -> (difference: MessageId) {
        MessageId(self.0 - rhs.0)
    }
}

impl vstd::std_specs::ops::SubSpecImpl for MessageId {
    open spec fn obeys_sub_spec() -> bool {
        true
    }

    open spec fn sub_req(self, rhs: MessageId) -> bool {
        rhs.0 <= self.0
    }

    open spec fn sub_spec(self, rhs: MessageId) -> MessageId {
        MessageId((self.0 - rhs.0) as u32)
    }
}

} // verus!
