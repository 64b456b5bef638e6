//! Events and their attributes.

use vstd::prelude::*;

verus! {

/// Where an event comes from.
#[derive(Debug, Clone, Copy, PartialEq, Eq, Structural)]
pub enum EventType {
    EthDev,
    CryptoDev,
    CPU,
    EthRxAdapter,
    Timer,
    EthDevVector,
    CpuVector,
    EthRxAdapterVector,
}

impl Default for EventType {
    fn default() -> (kind: Self)
        ensures
            kind == EventType::EthDev,
    {
        EventType::EthDev
    }
}

/// What the scheduler is to do with an event.
#[derive(Debug, Clone, Copy, PartialEq, Eq, Structural)]
pub enum EventOp {
    New,
    Forward,
    Release,
}

impl Default for EventOp {
    fn default() -> (op: Self)
        ensures
            op == EventOp::New,
    {
        EventOp::New
    }
}

/// How the events of a flow are scheduled.
#[derive(Debug, Clone, Copy, PartialEq, Eq, Structural)]
pub enum EventScheduleType {
    Ordered,
    Atomic,
    Parallel,
}

impl Default for EventScheduleType {
    fn default() -> (kind: Self)
        ensures
            kind == EventScheduleType::Ordered,
    {
        EventScheduleType::Ordered
    }
}

/// The first word of an event: as one number, or by its attributes.
#[derive(Debug, Clone, Copy, PartialEq, Eq, Structural)]
pub enum EventWordZero {
    Event(u64),
    EventAttributes {
        queue_id: u8,
        flow_id: u32,
        event_type: EventType,
        event_subtype: u8,
        operation: EventOp,
        scheduling_type: EventScheduleType,
        priority: u8,
    },
}

impl Default for EventWordZero {
    fn default() -> (word: Self)
        ensures
            word == EventWordZero::Event(0),
    {
        EventWordZero::Event(0)
    }
}

} // verus!
