//! Event devices.

pub mod dev;
pub mod eth;
pub mod event;

use vstd::prelude::*;

verus! {

/// The number of an event device.
pub type EventDeviceId = u8;

/// The number of a port of an event device.
pub type EventPortId = u8;

} // verus!
