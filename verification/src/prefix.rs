//! Commit prefixes: per client, how far its stream has been committed.

use vstd::prelude::*;
use crate::message::client_message::MessageId;

verus! {

/// The high-water marks of a prefix, one per client.
pub type PrefixInner<const NUM_CLIENTS: usize> = [MessageId; NUM_CLIENTS];

/// A commit prefix: for each client `c`, every message of `c` with an id
/// below `states[c]` is committed.
#[derive(Copy, Clone, Debug)]
pub struct Prefix<const NUM_CLIENTS: usize> {
    pub id: u64,
    pub states: PrefixInner<NUM_CLIENTS>,
}

/// For each client, how many messages a prefix commits beyond an earlier one.
#[derive(Copy, Clone, Debug)]
pub struct PrefixDelta<const NUM_CLIENTS: usize> {
    pub states: PrefixInner<NUM_CLIENTS>,
}

/// Whether `later` commits at least what `earlier` commits, for every client.
pub open spec fn dominates<const NUM_CLIENTS: usize>(
    later: PrefixInner<NUM_CLIENTS>,
    earlier: PrefixInner<NUM_CLIENTS>,
) -> bool {
    forall|c: int| 0 <= c < NUM_CLIENTS ==> earlier[c].0 <= (#[trigger] later[c]).0
}

impl<const NUM_CLIENTS: usize> Prefix<NUM_CLIENTS> {
    /// The prefix `id` that commits nothing.
    pub fn new(id: u64) -> (prefix: Self)
        ensures
            prefix.id == id,
            forall|c: int| 0 <= c < NUM_CLIENTS ==> (#[trigger] prefix.states[c]).0 == 0,
    {
        Prefix { id, states: [MessageId(0);NUM_CLIENTS] }
    }

    /// What two reports of the same prefix agree on: for each client the
    /// lower of the two marks. Reports of different prefixes do not merge.
    pub fn merge(&self, other: &Self) -> (merged: Option<Self>)
        ensures
            merged is Some <==> self.id == other.id,
            merged is Some ==> {
                &&& merged->Some_0.id == self.id
                &&& forall|c: int|
                    0 <= c < NUM_CLIENTS ==> (#[trigger] merged->Some_0.states[c]).0 == if self.states[c].0
                        <= other.states[c].0 {
                        self.states[c].0
                    } else {
                        other.states[c].0
                    }
            },
    {
        if self.id != other.id {
            return None;
        }
        let mut states = self.states;
        let mut c: usize = 0;
        while c < NUM_CLIENTS
            invariant
                c <= NUM_CLIENTS,
                forall|d: int|
                    0 <= d < c ==> (#[trigger] states[d]).0 == if self.states[d].0
                        <= other.states[d].0 {
                        self.states[d].0
                    } else {
                        other.states[d].0
                    },
                forall|d: int| c <= d < NUM_CLIENTS ==> (#[trigger] states[d]) == self.states[d],
            decreases NUM_CLIENTS - c,
        {
            if other.states[c].0 < self.states[c].0 {
                states[c] = other.states[c];
            }
            c = c + 1;
        }
        Some(Prefix { id: self.id, states })
    }

    /// For each client, how many messages `other` commits beyond `self`.
    pub fn delta_to(&self, other: &Self) -> (delta: PrefixDelta<NUM_CLIENTS>)
        requires
            dominates(other.states, self.states),
        ensures
            forall|c: int|
                0 <= c < NUM_CLIENTS ==> (#[trigger] delta.states[c]).0 == other.states[c].0
                    - self.states[c].0,
    {
        let mut states = other.states;
        let mut c: usize = 0;
        while c < NUM_CLIENTS
            invariant
                c <= NUM_CLIENTS,
                dominates(other.states, self.states),
                forall|d: int|
                    0 <= d < c ==> (#[trigger] states[d]).0 == other.states[d].0
                        - self.states[d].0,
                forall|d: int| c <= d < NUM_CLIENTS ==> (#[trigger] states[d]) == other.states[d],
            decreases NUM_CLIENTS - c,
        {
            assert(self.states[c as int].0 <= other.states[c as int].0);
            states[c] = other.states[c] - self.states[c];
            c = c + 1;
        }
        PrefixDelta { states }
    }

    /// Whether `other` commits at least what `self` commits, for every
    /// client.
    pub fn is_dominated_by(&self, other: &Self) -> (dominated: bool)
        ensures
            dominated == dominates(other.states, self.states),
    {
        let mut c: usize = 0;
        while c < NUM_CLIENTS
            invariant
                c <= NUM_CLIENTS,
                forall|d: int| 0 <= d < c ==> self.states[d].0 <= (#[trigger] other.states[d]).0,
            decreases NUM_CLIENTS - c,
        {
            if other.states[c].0 < self.states[c].0 {
                return false;
            }
            c = c + 1;
        }
        true
    }
}

} // verus!
