//! What the store decides when it talks to the packet driver: how it is
//! configured, and what the driver's answers mean. The calls themselves are
//! made outside this library.

pub mod config;
pub mod device;
pub mod eal;
pub mod errno;
pub mod render;
pub mod ring;
