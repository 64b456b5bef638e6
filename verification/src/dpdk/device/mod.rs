//! Ethernet and event devices.

pub mod eth;
pub mod event;
