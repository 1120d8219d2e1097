//! Split ownership: `split` consumes the socket aggregate and hands the
//! receive rings (RX + FILL, with the frame pool) and the transmit rings
//! (TX + COMPLETION) to two independent halves, which may live on
//! different threads. Dropped frames travel back to the receive half over
//! the shared free-frame queue.

use crate::desc::XDPDesc;
use crate::raw::FluxRaw;
use crate::ring::{ConsumerRing, ProducerRing};
use crate::shared::SharedFrameState;
use crate::sim::{valid_desc, valid_frame_addr};
use crate::umem::UmemRegion;
use std::sync::Arc;
use vstd::prelude::*;

verus! {

/// An owning packet handle: the received bytes, and the pool frame they
/// came from. Give it to `FluxTx::send` to transmit, or hand it to
/// `FluxRx::recycle` to drop.
///
/// Two warnings. First, the bytes here are a copy taken off the wire at
/// receive time: `FluxTx::send` queues the frame as it sits in the pool,
/// so edits made through `data_mut` are not transmitted. Second, a
/// `Packet` has no destructor magic: one that is merely dropped takes its
/// frame out of circulation until someone recycles its address. Always
/// send or recycle a packet.
pub struct Packet {
    addr: u64,
    len: u32,
    bytes: Vec<u8>,
}

impl Packet {
    /// The frame's base address in the pool.
    pub closed spec fn spec_addr(self) -> u64 {
        self.addr
    }

    /// The packet length as received; `FluxTx::send` transmits this many
    /// bytes of the frame, whatever was done to the byte copy since.
    pub closed spec fn spec_len(self) -> u32 {
        self.len
    }

    /// The packet's bytes.
    pub closed spec fn bytes(self) -> Seq<u8> {
        self.bytes@
    }

    pub fn new(addr: u64, len: u32, bytes: Vec<u8>) -> (r: Packet)
        ensures
            r.spec_addr() == addr,
            r.spec_len() == len,
            r.bytes() == bytes@,
    {
        Packet { addr, len, bytes }
    }

    /// The frame's base address in the pool.
    pub fn addr(&self) -> (r: u64)
        ensures
            r == self.spec_addr(),
    {
        self.addr
    }

    /// The packet length as received.
    pub fn len(&self) -> (r: usize)
        ensures
            r == self.spec_len(),
    {
        self.len as usize
    }

    /// The packet's bytes.
    pub fn data(&self) -> (r: &Vec<u8>)
        ensures
            r@ == self.bytes(),
    {
        &self.bytes
    }

    /// The packet's bytes, mutably. This edits the received copy only:
    /// what `FluxTx::send` transmits is the frame in the pool, untouched
    /// by edits made here.
    pub fn data_mut(&mut self) -> (r: &mut Vec<u8>)
        ensures
            r@ == old(self).bytes(),
            final(self).bytes() == final(r)@,
            final(self).spec_addr() == old(self).spec_addr(),
            final(self).spec_len() == old(self).spec_len(),
    {
        &mut self.bytes
    }
}

/// The receive half: owns RX and FILL, the frame pool, and the consuming
/// end of the free-frame queue.
pub struct FluxRx {
    /// Kernel to application: received descriptors.
    pub rx: ConsumerRing<XDPDesc>,
    /// Application to kernel: free frames for future receives.
    pub fill: ProducerRing<u64>,
    /// The shared frame pool.
    pub umem: UmemRegion,
    /// The socket handle.
    pub fd: i32,
    /// The free-frame queue, shared with the transmit half and with
    /// anyone recycling packets.
    pub shared: Arc<SharedFrameState>,
}

/// The transmit half: owns TX and COMPLETION and a handle to the
/// free-frame queue for frames it must give up.
pub struct FluxTx {
    /// Application to kernel: descriptors to transmit.
    pub tx: ProducerRing<XDPDesc>,
    /// Kernel to application: addresses of transmitted frames.
    pub comp: ConsumerRing<u64>,
    /// The socket handle.
    pub fd: i32,
    /// The free-frame queue, shared with the receive half.
    pub shared: Arc<SharedFrameState>,
}

/// How many frames one refill pass moves from the free-frame queue to
/// FILL, at most.
pub const REFILL_BATCH: u32 = 32;

impl FluxRx {
    /// Validity of the receive half: the pool is well-formed and every
    /// descriptor or address pending on its rings stays within the pool.
    pub open spec fn wf(self) -> bool {
        &&& self.umem.wf()
        &&& forall|i: int|
            0 <= i < self.rx.pending().len() ==> valid_desc(
                self.umem.spec_layout(),
                #[trigger] self.rx.pending()[i],
            )
        &&& forall|i: int|
            0 <= i < self.fill.pending().len() ==> valid_frame_addr(
                self.umem.spec_layout(),
                #[trigger] self.fill.pending()[i],
            )
    }

    /// Assemble a receive half and seed FILL with every frame of the pool
    /// in index order (as many as the ring takes).
    pub fn new(
        rx: ConsumerRing<XDPDesc>,
        fill: ProducerRing<u64>,
        umem: UmemRegion,
        fd: i32,
        shared: Arc<SharedFrameState>,
    ) -> (r: FluxRx)
        requires
            umem.wf(),
            fill.pending().len() == 0,
            forall|i: int|
                0 <= i < rx.pending().len() ==> valid_desc(
                    umem.spec_layout(),
                    #[trigger] rx.pending()[i],
                ),
        ensures
            r.wf(),
            r.rx == rx,
            r.umem == umem,
            r.spec_fd() == fd,
            r.fill.pending().len() == if umem.spec_layout().frame_count <= fill.ring_size() {
                umem.spec_layout().frame_count as int
            } else {
                fill.ring_size()
            },
            forall|i: int|
                0 <= i < r.fill.pending().len() ==> #[trigger] r.fill.pending()[i] == i
                    * umem.spec_layout().frame_size,
    {
        proof {
            umem.lemma_wf();
        }
        let layout = umem.layout();
        let frame_count = layout.frame_count;
        let frame_size = layout.frame_size;
        let mut fill = fill;
        fill.index_protocol();
        let ring_size = fill.len();
        let to_fill: u32 = if frame_count <= ring_size {
            frame_count
        } else {
            ring_size
        };
        let mut addrs: Vec<u64> = Vec::new();
        let mut i: u32 = 0;
        while i < to_fill
            invariant
                i <= to_fill,
                addrs@.len() == i as nat,
                forall|k: int| 0 <= k < i ==> #[trigger] addrs@[k] == k * frame_size,
                forall|k: int|
                    0 <= k < i ==> valid_frame_addr(
                        crate::layout::UmemLayout { frame_size, frame_count },
                        #[trigger] addrs@[k],
                    ),
                to_fill <= frame_count,
                frame_size >= 2048,
            decreases to_fill - i,
        {
            proof {
                crate::layout::lemma_u32_mul_fits_u64(i, frame_size);
                vstd::arithmetic::div_mod::lemma_mod_multiples_basic(i as int, frame_size as int);
                vstd::arithmetic::mul::lemma_mul_inequality(
                    i + 1,
                    frame_count as int,
                    frame_size as int,
                );
                vstd::arithmetic::mul::lemma_mul_is_distributive_add_other_way(
                    frame_size as int,
                    i as int,
                    1,
                );
                vstd::arithmetic::mul::lemma_mul_is_commutative(
                    frame_count as int,
                    frame_size as int,
                );
            }
            let addr = (i as u64) * (frame_size as u64);
            addrs.push(addr);
            i = i + 1;
        }
        let seeded = fill.append(&addrs);
        proof {
            assert(seeded);
        }
        let r = FluxRx { rx, fill, umem, fd, shared };
        proof {
            assert forall|k: int| 0 <= k < r.fill.pending().len() implies valid_frame_addr(
                r.umem.spec_layout(),
                #[trigger] r.fill.pending()[k],
            ) by {
                assert(r.fill.pending()[k] == addrs@[k]);
            }
        }
        r
    }

    /// The socket handle.
    pub open spec fn spec_fd(self) -> i32 {
        self.fd
    }

    /// The socket handle.
    pub fn fd(&self) -> (r: i32)
        ensures
            r == self.spec_fd(),
    {
        self.fd
    }

    /// Move up to `REFILL_BATCH` addresses from the free-frame queue back
    /// onto FILL, bounded also by the room FILL has (a partial batch is
    /// armed when fewer than `REFILL_BATCH` slots are free). An address
    /// outside the pool or off a frame boundary — the queue is writable by
    /// anyone with a handle — is discarded as a protocol violation rather
    /// than armed. What arrives is whatever other holders queued, so the
    /// contract promises only that FILL grew by some bounded sequence of
    /// valid frame addresses.
    pub fn refill(&mut self)
        requires
            old(self).wf(),
        ensures
            final(self).wf(),
            final(self).rx == old(self).rx,
            final(self).umem == old(self).umem,
            final(self).spec_fd() == old(self).spec_fd(),
            final(self).fill.ring_size() == old(self).fill.ring_size(),
            exists|got: Seq<u64>|
                {
                    &&& got.len() <= REFILL_BATCH
                    &&& got.len() <= old(self).fill.ring_size() - old(self).fill.pending().len()
                    &&& (forall|i: int|
                        0 <= i < got.len() ==> valid_frame_addr(
                            old(self).umem.spec_layout(),
                            #[trigger] got[i],
                        ))
                    &&& final(self).fill.pending() == #[trigger] (old(self).fill.pending() + got)
                },
    {
        proof {
            self.umem.lemma_wf();
        }
        let layout = self.umem.layout();
        let frame_size = layout.frame_size;
        self.fill.index_protocol();
        let free = self.fill.available();
        let cap: u32 = if free < REFILL_BATCH {
            free
        } else {
            REFILL_BATCH
        };
        if cap == 0 {
            proof {
                let got = Seq::<u64>::empty();
                assert(self.fill.pending() + got =~= self.fill.pending());
            }
            return ;
        }
        let mut addrs: Vec<u64> = Vec::new();
        let mut count: u32 = 0;
        while count < cap
            invariant
                addrs@.len() <= count <= cap <= REFILL_BATCH,
                cap <= old(self).fill.ring_size() - old(self).fill.pending().len(),
                self.fill == old(self).fill,
                frame_size == old(self).umem.spec_layout().frame_size,
                self.umem.wf(),
                self.umem == old(self).umem,
                forall|i: int|
                    0 <= i < addrs@.len() ==> valid_frame_addr(
                        old(self).umem.spec_layout(),
                        #[trigger] addrs@[i],
                    ),
            decreases cap - count,
        {
            let next = self.shared.take();
            match next {
                Some(addr) => {
                    proof {
                        self.umem.lemma_wf();
                    }
                    let in_pool = addr <= u64::MAX - (frame_size as u64) && addr + (frame_size
                        as u64) <= self.umem.len();
                    let aligned = addr % (frame_size as u64) == 0;
                    if in_pool && aligned {
                        addrs.push(addr);
                    }
                },
                None => {
                    break ;
                },
            }
            count = count + 1;
        }
        let ok = self.fill.append(&addrs);
        proof {
            assert(ok);
            assert forall|j: int| 0 <= j < self.fill.pending().len() implies valid_frame_addr(
                self.umem.spec_layout(),
                #[trigger] self.fill.pending()[j],
            ) by {
                let fill0 = old(self).fill.pending();
                if j < fill0.len() {
                    assert(self.fill.pending()[j] == fill0[j]);
                } else {
                    assert(self.fill.pending()[j] == addrs@[j - fill0.len()]);
                }
            }
        }
    }

    /// Receive up to `max` packets: refill FILL from the free-frame queue,
    /// then drain RX, copying each packet's bytes out of the pool into an
    /// owning handle.
    pub fn recv(&mut self, max: usize) -> (r: Vec<Packet>)
        requires
            old(self).wf(),
            max <= u32::MAX,
        ensures
            final(self).wf(),
            final(self).umem == old(self).umem,
            final(self).spec_fd() == old(self).spec_fd(),
            r@.len() == if max <= old(self).rx.pending().len() {
                max as int
            } else {
                old(self).rx.pending().len() as int
            },
            final(self).rx.pending() == old(self).rx.pending().skip(r@.len() as int),
            exists|got: Seq<u64>|
                got.len() <= REFILL_BATCH && final(self).fill.pending() == old(
                    self,
                ).fill.pending() + got,
            forall|i: int|
                0 <= i < r@.len() ==> {
                    let d = old(self).rx.pending()[i];
                    &&& (#[trigger] r@[i]).spec_addr() == d.addr
                    &&& r@[i].spec_len() == d.len
                    &&& r@[i].bytes() == old(self).umem.contents().subrange(
                        d.addr as int,
                        d.addr + d.len,
                    )
                },
    {
        self.refill();
        let count = self.rx.peek(max as u32);
        let mut packets: Vec<Packet> = Vec::new();
        if count == 0 {
            return packets;
        }
        let descs = self.rx.take_prefix(count);
        self.rx.release(count as u32);
        let ghost rx0 = old(self).rx.pending();
        proof {
            assert forall|j: int| 0 <= j < descs@.len() implies valid_desc(
                self.umem.spec_layout(),
                #[trigger] descs@[j],
            ) by {
                assert(descs@[j] == rx0[j]);
            }
            self.umem.lemma_wf();
        }
        let mut i: usize = 0;
        while i < count
            invariant
                count == descs@.len(),
                i <= count,
                packets@.len() == i as nat,
                self.umem.wf(),
                self.umem == old(self).umem,
                forall|j: int|
                    0 <= j < count ==> valid_desc(
                        self.umem.spec_layout(),
                        #[trigger] descs@[j],
                    ),
                forall|j: int|
                    0 <= j < i ==> {
                        let d = descs@[j];
                        &&& (#[trigger] packets@[j]).spec_addr() == d.addr
                        &&& packets@[j].spec_len() == d.len
                        &&& packets@[j].bytes() == self.umem.contents().subrange(
                            d.addr as int,
                            d.addr + d.len,
                        )
                    },
            decreases count - i,
        {
            let d = descs[i];
            proof {
                self.umem.lemma_wf();
            }
            let bytes = self.umem.read(d.addr, d.len);
            packets.push(Packet::new(d.addr, d.len, bytes));
            i = i + 1;
        }
        packets
    }

    /// Give a packet's frame up for re-arming on a later refill pass.
    /// Packets that are neither sent nor recycled keep their frame out of
    /// circulation.
    pub fn recycle(&self, packet: Packet) {
        self.shared.recycle(packet.addr);
    }
}

impl FluxTx {
    /// The socket handle.
    pub open spec fn spec_fd(self) -> i32 {
        self.fd
    }

    /// The socket handle.
    pub fn fd(&self) -> (r: i32)
        ensures
            r == self.spec_fd(),
    {
        self.fd
    }

    /// Drain up to 32 completed transmissions off COMPLETION. Their
    /// addresses are given up to the free-frame queue for the receive
    /// half to re-arm: this half owns no FILL ring to put them on.
    pub fn reclaim(&mut self)
        ensures
            final(self).tx == old(self).tx,
            final(self).spec_fd() == old(self).spec_fd(),
            final(self).comp.pending() == old(self).comp.pending().skip(
                if old(self).comp.pending().len() < 32 {
                    old(self).comp.pending().len() as int
                } else {
                    32
                },
            ),
            final(self).comp.ring_size() == old(self).comp.ring_size(),
    {
        let n = self.comp.peek(32);
        if n == 0 {
            proof {
                assert(self.comp.pending().skip(0) =~= self.comp.pending());
            }
            return ;
        }
        let addrs = self.comp.take_prefix(n);
        let mut i: usize = 0;
        while i < n
            invariant
                i <= n,
                n == addrs@.len(),
            decreases n - i,
        {
            self.shared.recycle(addrs[i]);
            i = i + 1;
        }
        self.comp.release(n as u32);
    }

    /// Transmit a packet: reclaim completed frames, then publish one TX
    /// descriptor for the packet's frame, carrying its received length.
    /// If TX is full the packet is dropped instead — its frame goes to
    /// the free-frame queue — and TX is unchanged; there is no partial
    /// transmit. Returns whether the descriptor was published.
    pub fn send(&mut self, packet: Packet) -> (r: bool)
        ensures
            final(self).spec_fd() == old(self).spec_fd(),
            final(self).comp.pending() == old(self).comp.pending().skip(
                if old(self).comp.pending().len() < 32 {
                    old(self).comp.pending().len() as int
                } else {
                    32
                },
            ),
            final(self).tx.ring_size() == old(self).tx.ring_size(),
            r == (old(self).tx.pending().len() < old(self).tx.ring_size()),
            r ==> final(self).tx.pending() == old(self).tx.pending().push(
                XDPDesc {
                    addr: packet.spec_addr(),
                    len: packet.spec_len(),
                    options: 0,
                },
            ),
            !r ==> final(self).tx == old(self).tx,
    {
        self.reclaim();
        let desc = XDPDesc { addr: packet.addr, len: packet.len, options: 0 };
        let mut one: Vec<XDPDesc> = Vec::new();
        one.push(desc);
        let ok = self.tx.append(&one);
        if ok {
            proof {
                assert(old(self).tx.pending() + one@ =~= old(self).tx.pending().push(desc));
            }
        } else {
            self.shared.recycle(packet.addr);
        }
        ok
    }
}

/// Split the socket aggregate into its receive and transmit halves. The
/// receive half seeds FILL with the whole pool; both halves share the
/// free-frame queue that carries dropped frames back to the receive side.
pub fn split(socket: FluxRaw) -> (r: (FluxRx, FluxTx))
    requires
        socket.state.wf(),
        socket.state.fill.pending().len() == 0,
    ensures
        r.0.wf(),
        r.0.rx == socket.state.rx,
        r.0.umem == socket.state.umem,
        r.0.spec_fd() == socket.spec_fd(),
        r.1.tx == socket.state.tx,
        r.1.comp == socket.state.comp,
        r.1.spec_fd() == socket.spec_fd(),
        r.0.fill.pending().len() == if socket.state.layout().frame_count
            <= socket.state.fill.ring_size() {
            socket.state.layout().frame_count as int
        } else {
            socket.state.fill.ring_size()
        },
        forall|i: int|
            0 <= i < r.0.fill.pending().len() ==> #[trigger] r.0.fill.pending()[i] == i
                * socket.state.layout().frame_size,
{
    let fd = socket.fd();
    let state = socket.state;
    let shared = Arc::new(SharedFrameState::new());
    let rx_half = FluxRx::new(state.rx, state.fill, state.umem, fd, shared.clone());
    let tx_half = FluxTx { tx: state.tx, comp: state.comp, fd, shared };
    (rx_half, tx_half)
}

} // verus!
