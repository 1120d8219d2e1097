//! The socket family's ABI as the kernel defines it: option codes, ring
//! memory-map page offsets, and the plain structures exchanged through
//! socket options and bind. The in-process back-end needs none of them;
//! an OS-backed front end passes them to the real socket calls.

use vstd::prelude::*;

verus! {

/// Bind flag: share an already-registered frame pool.
pub const XDP_SHARED_UMEM: u16 = 1;

/// Bind flag: copy mode.
pub const XDP_COPY: u16 = 2;

/// Bind flag: zero-copy mode.
pub const XDP_ZEROCOPY: u16 = 4;

/// Getsockopt code: query the ring memory-map offsets.
pub const XDP_MMAP_OFFSETS: i32 = 1;

/// Setsockopt code: set the RX ring size.
pub const XDP_RX_RING: i32 = 2;

/// Setsockopt code: set the TX ring size.
pub const XDP_TX_RING: i32 = 3;

/// Setsockopt code: register the frame pool.
pub const XDP_UMEM_REG: i32 = 4;

/// Setsockopt code: set the FILL ring size.
pub const XDP_UMEM_FILL_RING: i32 = 5;

/// Setsockopt code: set the COMPLETION ring size.
pub const XDP_UMEM_COMPLETION_RING: i32 = 6;

/// Memory-map page offset of the RX ring.
pub const XDP_PGOFF_RX_RING: u64 = 0;

/// Memory-map page offset of the TX ring.
pub const XDP_PGOFF_TX_RING: u64 = 0x80000000;

/// Memory-map page offset of the FILL ring.
pub const XDP_UMEM_PGOFF_FILL_RING: u64 = 0x100000000;

/// Memory-map page offset of the COMPLETION ring.
pub const XDP_UMEM_PGOFF_COMPLETION_RING: u64 = 0x180000000;

/// Where one ring's producer index, consumer index, descriptors and flags
/// live within its memory-mapped area.
#[derive(Debug, Clone, Copy, PartialEq, Eq, Structural)]
pub struct XdpRingOffset {
    pub producer: u64,
    pub consumer: u64,
    pub desc: u64,
    pub flags: u64,
}

/// The four rings' offsets, as the offsets query returns them.
#[derive(Debug, Clone, Copy, PartialEq, Eq, Structural)]
pub struct XdpMmapOffsets {
    pub rx: XdpRingOffset,
    pub tx: XdpRingOffset,
    pub fr: XdpRingOffset,
    pub cr: XdpRingOffset,
}

/// The frame-pool registration record: base address, length, frame size,
/// and per-frame headroom.
#[derive(Debug, Clone, Copy, PartialEq, Eq, Structural)]
pub struct XdpUmemReg {
    pub addr: u64,
    pub len: u64,
    pub chunk_size: u32,
    pub headroom: u32,
    pub flags: u32,
}

/// The bind record: address family, bind flags, interface index, queue id,
/// and the descriptor of a shared frame pool.
#[derive(Debug, Clone, Copy, PartialEq, Eq, Structural)]
pub struct SockaddrXdp {
    pub sxdp_family: u16,
    pub sxdp_flags: u16,
    pub sxdp_ifindex: u32,
    pub sxdp_queue_id: u32,
    pub sxdp_shared_umem_fd: u32,
}

} // verus!
