use crate::config::Poller;
use crate::error::FluxError;
use crate::layout::{lemma_u32_mul_fits_u64, UmemLayout};
use crate::raw::FluxRaw;
use crate::ring::{is_power_of_two_u32, valid_ring_size};
use crate::sim::MockSocketState;
use vstd::arithmetic::power2::is_pow2;
use vstd::prelude::*;

verus! {

/// The socket handle the in-process back-end hands out.
pub const SIM_SOCKET_FD: i32 = 1000;

/// Records the configuration of a socket and assembles the concrete
/// aggregate: pool, rings, and binding. Each ring gets one slot per frame.
pub struct FluxBuilder {
    pub interface: String,
    pub queue_id: u32,
    pub frame_count: u32,
    pub frame_size: u32,
    pub poller: Poller,
    pub batch_size: usize,
    pub bind_flags: u16,
}

impl FluxBuilder {
    /// A configuration this builder can build: a power-of-two frame size of
    /// at least 2048 bytes, a frame count that is a valid ring size, and a
    /// pool that fits the address space.
    pub open spec fn config_valid(self) -> bool {
        &&& is_pow2(self.frame_size as int)
        &&& self.frame_size >= 2048
        &&& valid_ring_size(self.frame_count as int)
        &&& self.frame_size * self.frame_count <= usize::MAX
    }

    /// The pool geometry this configuration asks for.
    pub open spec fn spec_layout(self) -> UmemLayout {
        UmemLayout { frame_size: self.frame_size, frame_count: self.frame_count }
    }

    /// Defaults: queue 0, 4096 frames of 2048 bytes, adaptive polling,
    /// batches of 64, no bind flags.
    pub fn new(interface: &str) -> (r: FluxBuilder)
        ensures
            r.interface@ == interface@,
            r.queue_id == 0,
            r.frame_count == 4096,
            r.frame_size == 2048,
            r.poller == Poller::Adaptive,
            r.batch_size == 64,
            r.bind_flags == 0,
    {
        FluxBuilder {
            interface: interface.to_string(),
            queue_id: 0,
            frame_count: 4096,
            frame_size: 2048,
            poller: Poller::Adaptive,
            batch_size: 64,
            bind_flags: 0,
        }
    }

    pub fn queue_id(self, id: u32) -> (r: FluxBuilder)
        ensures
            r == (FluxBuilder { queue_id: id, ..self }),
    {
        FluxBuilder { queue_id: id, ..self }
    }

    pub fn bind_flags(self, flags: u16) -> (r: FluxBuilder)
        ensures
            r == (FluxBuilder { bind_flags: flags, ..self }),
    {
        FluxBuilder { bind_flags: flags, ..self }
    }

    /// Sets the number of frames in the pool (and so the ring sizes).
    pub fn umem_pages(self, count: u32) -> (r: FluxBuilder)
        ensures
            r == (FluxBuilder { frame_count: count, ..self }),
    {
        FluxBuilder { frame_count: count, ..self }
    }

    pub fn poller(self, poller: Poller) -> (r: FluxBuilder)
        ensures
            r == (FluxBuilder { poller, ..self }),
    {
        FluxBuilder { poller, ..self }
    }

    pub fn batch_size(self, size: usize) -> (r: FluxBuilder)
        ensures
            r == (FluxBuilder { batch_size: size, ..self }),
    {
        FluxBuilder { batch_size: size, ..self }
    }

    /// Build an engine over a freshly built socket: the pool and rings are
    /// created as `build_raw` does, and FILL is seeded with every frame of
    /// the pool. Succeeds exactly on valid configurations.
    pub fn build_engine(self) -> (r: Result<crate::engine::FluxEngine, FluxError>)
        ensures
            r is Ok <==> self.config_valid(),
            r matches Ok(e) ==> {
                &&& e.inv()
                &&& e.poller == self.poller
                &&& e.batch_size == crate::engine::clamped_batch_size(self.batch_size)
                &&& e.staged@.len() == 0
                &&& e.lost@ == 0
                &&& e.socket.state.layout() == self.spec_layout()
                &&& e.socket.state.fill.pending().len() == self.frame_count
                &&& forall|i: int|
                    0 <= i < e.socket.state.fill.pending().len()
                        ==> #[trigger] e.socket.state.fill.pending()[i] == i * self.frame_size
                &&& e.socket.state.rx.pending().len() == 0
                &&& e.socket.state.tx.pending().len() == 0
                &&& e.socket.state.comp.pending().len() == 0
            },
    {
        let poller = self.poller;
        let batch_size = self.batch_size;
        let raw = match self.build_raw() {
            Ok(r) => r,
            Err(e) => {
                return Err(e);
            },
        };
        Ok(crate::engine::FluxEngine::with_config(raw, batch_size, poller))
    }

    /// Build the concrete socket aggregate: create the pool, create the
    /// rings (one slot per frame), and bind to the interface and queue.
    /// Succeeds exactly on valid configurations; every ring starts empty.
    pub fn build_raw(self) -> (r: Result<FluxRaw, FluxError>)
        ensures
            r is Ok <==> self.config_valid(),
            r matches Ok(raw) ==> {
                &&& raw.state.wf()
                &&& raw.state.layout() == self.spec_layout()
                &&& raw.state.fill.pending().len() == 0
                &&& raw.state.rx.pending().len() == 0
                &&& raw.state.tx.pending().len() == 0
                &&& raw.state.comp.pending().len() == 0
                &&& raw.state.fill.ring_size() == self.frame_count
                &&& raw.state.rx.ring_size() == self.frame_count
                &&& raw.state.tx.ring_size() == self.frame_count
                &&& raw.state.comp.ring_size() == self.frame_count
                &&& raw.state.if_index == 1
                &&& raw.state.queue_id == self.queue_id
                &&& raw.spec_fd() == SIM_SOCKET_FD
            },
            r matches Err(e) ==> (e matches FluxError::InvalidConfiguration(_)),
    {
        if !(is_power_of_two_u32(self.frame_size) && self.frame_size >= 2048) {
            return Err(
                FluxError::InvalidConfiguration(
                    "frame size must be a power of two of at least 2048".to_string(),
                ),
            );
        }
        if !(is_power_of_two_u32(self.frame_count) && self.frame_count <= 0x8000_0000) {
            return Err(
                FluxError::InvalidConfiguration(
                    "frame count must be a power of two ring size".to_string(),
                ),
            );
        }
        proof {
            lemma_u32_mul_fits_u64(self.frame_size, self.frame_count);
        }
        let size = (self.frame_size as u64) * (self.frame_count as u64);
        if size > usize::MAX as u64 {
            return Err(
                FluxError::InvalidConfiguration(
                    "frame pool does not fit the address space".to_string(),
                ),
            );
        }
        let layout = UmemLayout::new(self.frame_size, self.frame_count);
        let mut state = match MockSocketState::new(layout, self.frame_count) {
            Ok(s) => s,
            Err(_) => {
                return Err(
                    FluxError::InvalidConfiguration("could not create the frame pool".to_string()),
                );
            },
        };
        let if_index = match crate::sim::if_nametoindex(self.interface.as_str()) {
            Ok(i) => i,
            Err(_) => {
                return Err(
                    FluxError::InvalidConfiguration("unknown interface".to_string()),
                );
            },
        };
        state.if_index = if_index;
        state.queue_id = self.queue_id;
        Ok(FluxRaw::new(state, SIM_SOCKET_FD))
    }
}

} // verus!
