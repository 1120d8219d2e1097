use crate::error::FluxError;
use crate::sim::MockSocketState;
use vstd::prelude::*;

verus! {

/// The concrete aggregate behind one socket: the bound back-end state
/// (rings and frame pool) plus the socket handle. Dropping it releases
/// everything, storage being owned outright.
pub struct FluxRaw {
    /// The rings and the frame pool.
    pub state: MockSocketState,
    /// The socket handle.
    pub fd: i32,
}

impl FluxRaw {
    /// The socket handle.
    pub open spec fn spec_fd(self) -> i32 {
        self.fd
    }

    pub fn new(state: MockSocketState, fd: i32) -> (r: FluxRaw)
        ensures
            r.state == state,
            r.spec_fd() == fd,
    {
        FluxRaw { state, fd }
    }

    /// The socket handle.
    pub fn fd(&self) -> (r: i32)
        ensures
            r == self.spec_fd(),
    {
        self.fd
    }

    /// Whether the receive path asks to be woken. The ring-flag check is
    /// not wired up, so this is always false.
    pub fn needs_wakeup_rx(&self) -> (r: bool)
        ensures
            r == false,
    {
        false
    }

    /// Nudge the receive path. The in-process back-end has nothing to
    /// wake, so this always succeeds and changes nothing.
    pub fn wakeup_rx(&self) -> (r: Result<(), FluxError>)
        ensures
            r is Ok,
    {
        Ok(())
    }

    /// Whether the transmit path asks to be woken. The ring-flag check is
    /// not wired up, so this is always false.
    pub fn needs_wakeup_tx(&self) -> (r: bool)
        ensures
            r == false,
    {
        false
    }

    /// Nudge the transmit path. The in-process back-end has nothing to
    /// wake, so this always succeeds and changes nothing.
    pub fn wakeup_tx(&self) -> (r: Result<(), FluxError>)
        ensures
            r is Ok,
    {
        Ok(())
    }
}

} // verus!
