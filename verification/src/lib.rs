//! User-space packet I/O core in the style of a kernel-bypass (AF_XDP) socket:
//! four single-producer/single-consumer rings over a shared frame pool, a
//! batch-cycle engine, split receive/transmit halves with cross-thread frame
//! recycling, byte-level protocol decoders, and an in-process back-end that
//! stands in for the kernel so the whole packet plane runs deterministically.

pub mod allocator;
pub mod builder;
pub mod config;
pub mod desc;
pub mod engine;
pub mod error;
pub mod ethernet;
pub mod icmp;
pub mod ipv4;
pub mod layout;
pub mod packet;
pub mod proto;
pub mod raw;
pub mod ring;
pub mod shared;
pub mod sim;
pub mod split;
pub mod tcp;
pub mod udp;
pub mod umem;
pub mod xdp;

use vstd::prelude::*;

verus! {

/// Marker for a configured socket context; the concrete state lives in the
/// back-end (`sim::MockSocketState` in-process, the OS socket otherwise).
pub struct XskContext;

} // verus!
