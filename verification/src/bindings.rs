use vstd::prelude::*;

verus! {

/// Smallest ring capacity, in bytes, that the driver accepts for a session.
pub const MIN_RING_CAPACITY: usize = 0x20000;

/// Largest ring capacity, in bytes, that the driver accepts for a session.
pub const MAX_RING_CAPACITY: usize = 0x4000000;

/// Largest IP packet the driver carries.
pub const MAX_IP_PACKET_SIZE: u32 = 0xFFFF;

/// The error code with which the driver reports an empty receive ring.
pub const ERROR_NO_MORE_ITEMS: u32 = 259;

/// Severity of a message that the driver hands to the logger callback.
#[derive(Clone, Copy, Debug, PartialEq, Eq, Structural)]
pub enum LoggerLevel {
    Info,
    Warn,
    Error,
}

} // verus!
