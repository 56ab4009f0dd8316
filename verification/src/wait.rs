//! Waiting for a device: how often to look, and what is said meanwhile.
use vstd::prelude::*;

verus! {

/// How long between two looks at the bus, in milliseconds.
pub const POLL_INTERVAL: u64 = 500;

/// How often a bootstrap looks for the gadget it created.
pub const REENUM_ATTEMPTS: u32 = 120;

/// How long between two of those looks, in milliseconds.
pub const REENUM_INTERVAL: u64 = 250;

/// Said once, when there is nothing on the bus yet.
pub const WAITING: &'static str = "Waiting for an Ingenic device to appear (Ctrl-C to abort)...";

/// Said once, when there is something.
pub const ARRIVED: &'static str = "Device found.";

} // verus!
