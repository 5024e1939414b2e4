use vstd::prelude::*;

use crate::bindings::{ERROR_NO_MORE_ITEMS, MAX_RING_CAPACITY, MIN_RING_CAPACITY};

verus! {

/// The ring capacity handed to the driver when a session starts, or `None`
/// when `capacity` lies outside `MIN_RING_CAPACITY ..= MAX_RING_CAPACITY`,
/// in which case no session may be started.
pub fn session_capacity(capacity: usize) -> (res: Option<u32>)
    ensures
        res is Some <==> MIN_RING_CAPACITY <= capacity <= MAX_RING_CAPACITY,
        res matches Some(c) ==> c == capacity,
{
    if capacity < MIN_RING_CAPACITY || capacity > MAX_RING_CAPACITY {
        None
    } else {
        Some(capacity as u32)
    }
}

/// What one attempt to take a packet from the receive ring gave back.
#[derive(Clone, Copy, Debug, PartialEq, Eq, Structural)]
pub enum ReceiveOutcome {
    /// A packet of `size` bytes was taken from the ring.
    Packet { size: u32 },
    /// No packet was taken; the driver's last error code is `error`.
    Failed { error: u32 },
}

/// What the receive loop does after one attempt.
#[derive(Clone, Copy, Debug, PartialEq, Eq, Structural)]
pub enum ReceiveAction {
    /// Hand a packet of `size` bytes to the caller.
    Deliver { size: u32 },
    /// The ring is empty: wait on the session's read event, then try again.
    WaitAndRetry,
    /// Give up and report that no packet can be had.
    GiveUp,
}

/// The receive loop's decision after one attempt: a packet is delivered, an
/// empty ring is waited on, and any other failure ends the loop.
pub open spec fn spec_receive_step(outcome: ReceiveOutcome) -> ReceiveAction {
    match outcome {
        ReceiveOutcome::Packet { size } => ReceiveAction::Deliver { size },
        ReceiveOutcome::Failed { error } => if error == ERROR_NO_MORE_ITEMS {
            ReceiveAction::WaitAndRetry
        } else {
            ReceiveAction::GiveUp
        },
    }
}

/// Decides what the receive loop does after one attempt on the ring.
pub fn receive_step(outcome: ReceiveOutcome) -> (action: ReceiveAction)
    ensures
        action == spec_receive_step(outcome),
        action is WaitAndRetry <==> outcome == (ReceiveOutcome::Failed { error: ERROR_NO_MORE_ITEMS }),
        action is GiveUp <==> (outcome is Failed && outcome->error != ERROR_NO_MORE_ITEMS),
        action matches ReceiveAction::Deliver { size } ==> outcome == (ReceiveOutcome::Packet { size }),
{
    match outcome {
        ReceiveOutcome::Packet { size } => ReceiveAction::Deliver { size },
        ReceiveOutcome::Failed { error } => {
            if error == ERROR_NO_MORE_ITEMS {
                ReceiveAction::WaitAndRetry
            } else {
                ReceiveAction::GiveUp
            }
        },
    }
}

/// The size to ask the driver to allocate for an outgoing packet of `len`
/// bytes, or `None` when `len` does not fit the driver's 32-bit size.
pub fn send_size(len: usize) -> (res: Option<u32>)
    ensures
        res is Some <==> len <= u32::MAX,
        res matches Some(n) ==> n == len,
{
    if len <= 0xFFFF_FFFFusize {
        Some(len as u32)
    } else {
        None
    }
}

/// Copies an outgoing packet into the send buffer that the driver allocated
/// for it.
pub fn fill_send_buffer(buffer: &mut [u8], packet: &[u8])
    requires
        old(buffer)@.len() == packet@.len(),
    ensures
        final(buffer)@ == packet@,
{
    let n = packet.len();
    let mut i: usize = 0;
    while i < n
        invariant
            n == packet@.len(),
            buffer@.len() == n,
            i <= n,
            forall|j: int| 0 <= j < i ==> buffer@[j] == packet@[j],
        decreases n - i,
    {
        buffer[i] = packet[i];
        i = i + 1;
    }
    assert(buffer@ =~= packet@);
}

} // verus!
