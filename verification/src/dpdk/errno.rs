//! The error numbers by which the driver answers.

use vstd::prelude::*;

verus! {

/// Input or output failed.
pub const EIO: i32 = 5;

/// Memory ran out.
pub const ENOMEM: i32 = 12;

/// There is no such device.
pub const ENODEV: i32 = 19;

/// An argument is invalid.
pub const EINVAL: i32 = 22;

/// A link has been severed.
pub const ENOLINK: i32 = 67;

/// The operation is not supported.
pub const ENOTSUP: i32 = 95;

/// A handle is stale.
pub const ESTALE: i32 = 116;

/// A quota is exceeded.
pub const EDQUOT: i32 = 122;

} // verus!
