//! Equality and order of client messages, both by tag.

use vstd::prelude::*;
use std::cmp::Ordering;
use super::client_message::{spec_tag, ClientLogMessage};

verus! {

impl<K, V> PartialEq for ClientLogMessage<K, V> {
    fn eq(&self, other: &Self) -> (equal: bool) {
        self.tag() == other.tag()
    }
}

impl<K, V> vstd::std_specs::cmp::PartialEqSpecImpl for ClientLogMessage<K, V> {
    open spec fn obeys_eq_spec() -> bool {
        true
    }

    open spec fn eq_spec(&self, other: &Self) -> bool {
        spec_tag(self.message_id.0, self.client_id.0) == spec_tag(
            other.message_id.0,
            other.client_id.0,
        )
    }
}

impl<K, V> Eq for ClientLogMessage<K, V> {

}

impl<K, V> PartialOrd for ClientLogMessage<K, V> {
    fn partial_cmp(&self, other: &Self) -> (order: Option<Ordering>) {
        let mine = self.tag();
        let theirs = other.tag();
        if mine < theirs {
            Some(Ordering::Less)
        } else if mine == theirs {
            Some(Ordering::Equal)
        } else {
            Some(Ordering::Greater)
        }
    }
}

impl<K, V> vstd::std_specs::cmp::PartialOrdSpecImpl for ClientLogMessage<K, V> {
    open spec fn obeys_partial_cmp_spec() -> bool {
        true
    }

    open spec fn partial_cmp_spec(&self, other: &Self) -> Option<Ordering> {
        let mine = spec_tag(self.message_id.0, self.client_id.0);
        let theirs = spec_tag(other.message_id.0, other.client_id.0);
        if mine < theirs {
            Some(Ordering::Less)
        } else if mine == theirs {
            Some(Ordering::Equal)
        } else {
            Some(Ordering::Greater)
        }
    }
}

} // verus!
