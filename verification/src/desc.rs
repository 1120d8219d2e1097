use vstd::prelude::*;

verus! {

/// A receive/transmit descriptor: the frame address within the shared pool,
/// the packet length in bytes, and option bits. FILL and COMPLETION rings
/// carry bare addresses instead.
#[derive(Debug, Clone, Copy, PartialEq, Eq, Structural)]
pub struct XDPDesc {
    pub addr: u64,
    pub len: u32,
    pub options: u32,
}

impl XDPDesc {
    /// The all-zero descriptor, used to seed ring and scratch storage.
    pub fn zero() -> (r: XDPDesc)
        ensures
            r == (XDPDesc { addr: 0, len: 0, options: 0 }),
    {
        XDPDesc { addr: 0, len: 0, options: 0 }
    }
}

} // verus!
