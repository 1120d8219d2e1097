//! The in-process back-end that stands in for the kernel: the four rings,
//! the frame pool, and the two control operations a test drives the packet
//! plane with — delivering a packet as if the wire had, and collecting what
//! the application queued for transmission.

use crate::desc::XDPDesc;
use crate::error::FluxError;
use crate::layout::UmemLayout;
use crate::ring::{valid_ring_size, ConsumerRing, ProducerRing};
use crate::umem::UmemRegion;
use vstd::prelude::*;

verus! {

/// An address is a frame base within the pool.
pub open spec fn valid_frame_addr(l: UmemLayout, a: u64) -> bool {
    &&& a % (l.frame_size as u64) == 0
    &&& a + l.frame_size <= l.spec_size()
}

/// A descriptor points at a frame base and fits within one frame.
pub open spec fn valid_desc(l: UmemLayout, d: XDPDesc) -> bool {
    &&& valid_frame_addr(l, d.addr)
    &&& d.len <= l.frame_size
}

/// The state behind one mock socket: the frame pool and the four rings,
/// with the kernel's side of each driven in-process.
pub struct MockSocketState {
    /// Kernel to application: received descriptors.
    pub rx: ConsumerRing<XDPDesc>,
    /// Application to kernel: descriptors to transmit.
    pub tx: ProducerRing<XDPDesc>,
    /// Application to kernel: free frames for future receives.
    pub fill: ProducerRing<u64>,
    /// Kernel to application: addresses of transmitted frames.
    pub comp: ConsumerRing<u64>,
    /// The shared frame pool.
    pub umem: UmemRegion,
    /// Interface index recorded at bind time.
    pub if_index: u32,
    /// Queue id recorded at bind time.
    pub queue_id: u32,
}

impl MockSocketState {
    /// The pool geometry.
    pub open spec fn layout(self) -> UmemLayout {
        self.umem.spec_layout()
    }

    /// Every address and descriptor on the rings is frame-aligned and
    /// in-pool, the pool is valid, and each ring has at least one slot per
    /// frame (so the kernel side always has room for what it owes).
    pub open spec fn wf(self) -> bool {
        &&& self.umem.wf()
        &&& self.rx.ring_size() >= self.layout().frame_count
        &&& self.comp.ring_size() >= self.layout().frame_count
        &&& forall|i: int|
            0 <= i < self.fill.pending().len() ==> valid_frame_addr(
                self.layout(),
                #[trigger] self.fill.pending()[i],
            )
        &&& forall|i: int|
            0 <= i < self.rx.pending().len() ==> valid_desc(
                self.layout(),
                #[trigger] self.rx.pending()[i],
            )
        &&& forall|i: int|
            0 <= i < self.tx.pending().len() ==> valid_desc(
                self.layout(),
                #[trigger] self.tx.pending()[i],
            )
        &&& forall|i: int|
            0 <= i < self.comp.pending().len() ==> valid_frame_addr(
                self.layout(),
                #[trigger] self.comp.pending()[i],
            )
    }

    /// Number of frames currently on some ring: on FILL or RX (owned by
    /// the receive side), or on TX or COMPLETION (owned by the transmit
    /// side).
    pub open spec fn frames_in_flight(self) -> int {
        self.fill.pending().len() + self.rx.pending().len() + self.tx.pending().len()
            + self.comp.pending().len() as int
    }

    /// Frame conservation: every frame of the pool is on exactly one ring
    /// or in exactly one hand. `held` counts the frames the application
    /// side holds outside the rings (packets being processed, and frames
    /// it failed to recycle).
    pub open spec fn conserves(self, held: int) -> bool {
        self.frames_in_flight() + held == self.layout().frame_count
    }

    /// A fresh socket state: empty rings of `ring_size` slots each and a
    /// zeroed pool.
    pub fn new(layout: UmemLayout, ring_size: u32) -> (r: Result<MockSocketState, FluxError>)
        requires
            layout.wf(),
            layout.spec_size() <= usize::MAX,
            valid_ring_size(ring_size as int),
            ring_size >= layout.frame_count,
        ensures
            r matches Ok(s) && s.wf() && s.layout() == layout && s.fill.pending().len() == 0
                && s.rx.pending().len() == 0 && s.tx.pending().len() == 0 && s.comp.pending().len()
                == 0 && s.fill.ring_size() == ring_size && s.rx.ring_size() == ring_size
                && s.tx.ring_size() == ring_size && s.comp.ring_size() == ring_size && s.if_index
                == 0 && s.queue_id == 0 && s.umem.contents() == Seq::new(
                layout.spec_size() as nat,
                |i: int| 0u8,
            ),
    {
        let umem = match UmemRegion::new(layout) {
            Ok(u) => u,
            Err(e) => {
                return Err(e);
            },
        };
        let n = ring_size as usize;
        let rx = ConsumerRing::new(crate::ring::filled(XDPDesc::zero(), n));
        let tx = ProducerRing::new(crate::ring::filled(XDPDesc::zero(), n));
        let fill = ProducerRing::new(crate::ring::filled(0u64, n));
        let comp = ConsumerRing::new(crate::ring::filled(0u64, n));
        Ok(MockSocketState { rx, tx, fill, comp, umem, if_index: 0, queue_id: 0 })
    }
}

/// Deliver `data` as a received packet: take the oldest free frame off
/// FILL, copy the bytes into it, and publish a descriptor for it on RX —
/// exactly what the kernel's receive path does. Fails, changing nothing,
/// when FILL has no frame or the bytes do not fit one frame.
pub fn inject_packet(state: &mut MockSocketState, data: &[u8]) -> (r: Result<(), String>)
    requires
        old(state).wf(),
        old(state).frames_in_flight() <= old(state).layout().frame_count,
    ensures
        final(state).wf(),
        final(state).layout() == old(state).layout(),
        final(state).frames_in_flight() == old(state).frames_in_flight(),
        final(state).tx == old(state).tx,
        final(state).comp == old(state).comp,
        final(state).if_index == old(state).if_index,
        final(state).queue_id == old(state).queue_id,
        r is Ok <==> old(state).fill.pending().len() > 0 && data@.len()
            <= old(state).layout().frame_size,
        r is Err ==> *final(state) == *old(state),
        r is Ok ==> {
            let addr = old(state).fill.pending()[0];
            &&& final(state).fill.pending() == old(state).fill.pending().skip(1)
            &&& final(state).rx.pending() == old(state).rx.pending().push(
                XDPDesc { addr, len: data@.len() as u32, options: 0 },
            )
            &&& final(state).umem.contents().len() == old(state).umem.contents().len()
            &&& forall|i: int|
                0 <= i < old(state).umem.contents().len()
                    ==> final(state).umem.contents()[i] == if addr <= i < addr + data@.len() {
                    data@[i - addr]
                } else {
                    old(state).umem.contents()[i]
                }
        },
{
    if data.len() > state.umem.layout().frame_size as usize {
        return Err("RX Dropped: packet larger than a frame".to_string());
    }
    let addr = match state.fill.peer_pop() {
        Some(a) => a,
        None => {
            return Err("RX Dropped: No buffers in Fill Ring".to_string());
        },
    };
    let mut bytes: Vec<u8> = Vec::new();
    crate::proto::push_bytes(&mut bytes, data);
    state.umem.write(addr, &bytes);
    let desc = XDPDesc { addr, len: data.len() as u32, options: 0 };
    state.rx.index_protocol();
    let pushed = state.rx.peer_push(desc);
    proof {
        assert(pushed);
        assert forall|i: int| 0 <= i < state.rx.pending().len() implies valid_desc(
            state.layout(),
            #[trigger] state.rx.pending()[i],
        ) by {
            if i < state.rx.pending().len() - 1 {
                assert(state.rx.pending()[i] == old(state).rx.pending()[i]);
            }
        }
        assert forall|i: int| 0 <= i < state.fill.pending().len() implies valid_frame_addr(
            state.layout(),
            #[trigger] state.fill.pending()[i],
        ) by {
            assert(state.fill.pending()[i] == old(state).fill.pending()[i + 1]);
        }
    }
    Ok(())
}

/// Collect the oldest descriptor the application queued on TX: copy its
/// bytes out of the pool, consume the descriptor, and hand the frame's
/// address back on COMPLETION — exactly what the kernel's transmit path
/// does. Fails, changing nothing, when TX is empty.
pub fn read_tx_packet(state: &mut MockSocketState) -> (r: Result<Vec<u8>, String>)
    requires
        old(state).wf(),
        old(state).frames_in_flight() <= old(state).layout().frame_count,
    ensures
        final(state).wf(),
        final(state).layout() == old(state).layout(),
        final(state).frames_in_flight() == old(state).frames_in_flight(),
        final(state).rx == old(state).rx,
        final(state).fill == old(state).fill,
        final(state).umem.contents() == old(state).umem.contents(),
        final(state).if_index == old(state).if_index,
        final(state).queue_id == old(state).queue_id,
        r is Ok <==> old(state).tx.pending().len() > 0,
        r is Err ==> *final(state) == *old(state),
        r matches Ok(data) ==> {
            let desc = old(state).tx.pending()[0];
            &&& final(state).tx.pending() == old(state).tx.pending().skip(1)
            &&& final(state).comp.pending() == old(state).comp.pending().push(desc.addr)
            &&& data@ == old(state).umem.contents().subrange(
                desc.addr as int,
                desc.addr as int + desc.len as int,
            )
        },
{
    state.tx.index_protocol();
    let desc = match state.tx.peer_pop() {
        Some(d) => d,
        None => {
            return Err("No packets in TX Ring".to_string());
        },
    };
    proof {
        old(state).umem.lemma_wf();
        assert(valid_desc(old(state).layout(), old(state).tx.pending()[0]));
    }
    let data = state.umem.read(desc.addr, desc.len);
    state.comp.index_protocol();
    let pushed = state.comp.peer_push(desc.addr);
    proof {
        assert(pushed);
        assert forall|i: int| 0 <= i < state.comp.pending().len() implies valid_frame_addr(
            state.layout(),
            #[trigger] state.comp.pending()[i],
        ) by {
            if i < state.comp.pending().len() - 1 {
                assert(state.comp.pending()[i] == old(state).comp.pending()[i]);
            }
        }
        assert forall|i: int| 0 <= i < state.tx.pending().len() implies valid_desc(
            state.layout(),
            #[trigger] state.tx.pending()[i],
        ) by {
            assert(state.tx.pending()[i] == old(state).tx.pending()[i + 1]);
        }
    }
    Ok(data)
}

/// Interface lookup in the in-process back-end: every name maps to index 1,
/// as there is no real device table to consult.
pub fn if_nametoindex(name: &str) -> (r: Result<u32, FluxError>)
    ensures
        r matches Ok(idx) && idx == 1,
{
    let _ = name;
    Ok(1)
}

} // verus!
