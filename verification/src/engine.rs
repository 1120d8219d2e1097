//! The batch runner: refill FILL from COMPLETION, drain RX, run the user
//! callback, then commit each packet's action — claimed packets to TX (all
//! or none), the rest back to FILL.
//!
//! The cycle is split into three verified steps so each has an exact
//! contract: [`FluxEngine::recycle_completions`], [`FluxEngine::take_batch`]
//! and [`FluxEngine::commit_batch`]; [`FluxEngine::process_batch`] runs one
//! whole cycle around a caller-supplied callback.

use crate::config::Poller;
use crate::desc::XDPDesc;
use crate::error::FluxError;
use crate::layout::UmemLayout;
use crate::packet::{Action, PacketBatch, PacketRef};
use crate::raw::FluxRaw;
use crate::sim::{valid_desc, valid_frame_addr, MockSocketState};
use vstd::prelude::*;

verus! {

/// The action that counts for position `i` of a batch: what the callback
/// chose, or `Drop` for a position the returned batch no longer covers.
pub open spec fn eff_action(b: PacketBatch, i: int) -> Action {
    if 0 <= i < b.packets().len() {
        b.packets()[i].spec_action()
    } else {
        Action::Drop
    }
}

/// The descriptors of `descs` whose position carries action `a` in batch
/// `b`, in their original order.
pub open spec fn select_by_action(descs: Seq<XDPDesc>, b: PacketBatch, a: Action) -> Seq<XDPDesc>
    decreases descs.len(),
{
    if descs.len() == 0 {
        Seq::empty()
    } else {
        let prefix = select_by_action(descs.drop_last(), b, a);
        if eff_action(b, descs.len() - 1) == a {
            prefix.push(descs.last())
        } else {
            prefix
        }
    }
}

/// The frame addresses of a descriptor sequence, in order.
pub open spec fn addrs_of(descs: Seq<XDPDesc>) -> Seq<u64> {
    Seq::new(descs.len(), |i: int| descs[i].addr)
}

/// Every batch position is claimed or dropped, so the two selections
/// partition the descriptors.
pub proof fn lemma_select_partition(descs: Seq<XDPDesc>, b: PacketBatch)
    ensures
        select_by_action(descs, b, Action::Tx).len() + select_by_action(
            descs,
            b,
            Action::Drop,
        ).len() == descs.len(),
    decreases descs.len(),
{
    if descs.len() > 0 {
        lemma_select_partition(descs.drop_last(), b);
    }
}

/// The default action recycles: a callback that claims nothing — every
/// action still `Drop`, as `take_batch` hands the batch over — sends no
/// descriptor to TX, and every frame address of the batch goes back
/// towards FILL.
pub proof fn lemma_default_action_recycles(descs: Seq<XDPDesc>, b: PacketBatch)
    requires
        forall|i: int| 0 <= i < b.packets().len() ==> b.packets()[i].spec_action() == Action::Drop,
    ensures
        select_by_action(descs, b, Action::Tx) == Seq::<XDPDesc>::empty(),
        select_by_action(descs, b, Action::Drop) == descs,
    decreases descs.len(),
{
    if descs.len() > 0 {
        lemma_default_action_recycles(descs.drop_last(), b);
        assert(select_by_action(descs, b, Action::Drop) =~= descs);
    }
}

/// `contents` with `data` overlaid at offset `at`.
pub open spec fn splice(contents: Seq<u8>, at: int, data: Seq<u8>) -> Seq<u8> {
    Seq::new(
        contents.len(),
        |j: int|
            if at <= j < at + data.len() {
                data[j - at]
            } else {
                contents[j]
            },
    )
}

/// The pool contents after the engine writes the batch's frames back: for
/// each position whose returned packet still matches the descriptor taken
/// off RX (same frame address, a whole frame of bytes), that frame's bytes
/// replace the pool's. Positions the returned batch dropped, renumbered or
/// resized are skipped: the engine never writes outside the frames it took.
pub open spec fn write_back(
    contents: Seq<u8>,
    descs: Seq<XDPDesc>,
    b: PacketBatch,
    fs: int,
) -> Seq<u8>
    decreases descs.len(),
{
    if descs.len() == 0 {
        contents
    } else {
        let prev = write_back(contents, descs.drop_last(), b, fs);
        let i = descs.len() - 1;
        if i < b.packets().len() && b.packets()[i].spec_addr() == descs[i].addr && b.packets()[
            i
        ].frame_bytes().len() == fs {
            splice(prev, descs[i].addr as int, b.packets()[i].frame_bytes())
        } else {
            prev
        }
    }
}

/// What `recycle_completions` leaves on FILL: the first `min(32, |comp|)`
/// completed addresses are appended when they all fit, and nothing
/// otherwise.
pub open spec fn recycled_fill(fill: Seq<u64>, comp: Seq<u64>, fill_size: int) -> Seq<u64> {
    let k = if comp.len() < 32 {
        comp.len() as int
    } else {
        32
    };
    if k <= fill_size - fill.len() {
        fill + comp.take(k)
    } else {
        fill
    }
}

/// How one commit changes the TX and FILL rings: the claimed descriptors
/// go to TX in order — all or none — and the others' addresses go to FILL
/// in order, every claimed one too when TX was full; addresses FILL cannot
/// take are lost.
pub open spec fn commit_outcome(
    staged: Seq<XDPDesc>,
    b: PacketBatch,
    tx0: Seq<XDPDesc>,
    fill0: Seq<u64>,
    tx_size: int,
    fill_size: int,
    tx1: Seq<XDPDesc>,
    fill1: Seq<u64>,
    lost_delta: int,
) -> bool {
    let txsel = select_by_action(staged, b, Action::Tx);
    let tx_ok = txsel.len() <= tx_size - tx0.len();
    let drops = if tx_ok {
        addrs_of(select_by_action(staged, b, Action::Drop))
    } else {
        addrs_of(staged)
    };
    let fill_ok = drops.len() <= fill_size - fill0.len();
    &&& tx1 == if tx_ok {
        tx0 + txsel
    } else {
        tx0
    }
    &&& fill1 == if fill_ok {
        fill0 + drops
    } else {
        fill0
    }
    &&& lost_delta == if fill_ok {
        0int
    } else {
        drops.len() as int
    }
}

/// The packet handed to the callback for descriptor `d`: the whole frame
/// copied out of the pool, the packet window at its start, and the default
/// action `Drop`.
pub open spec fn batch_packet_of(state: MockSocketState, d: XDPDesc, p: PacketRef) -> bool {
    &&& p.spec_addr() == d.addr
    &&& p.spec_head() == 0
    &&& p.spec_len() == d.len
    &&& p.spec_action() == Action::Drop
    &&& p.frame_bytes() == state.umem.contents().subrange(
        d.addr as int,
        d.addr + state.layout().frame_size,
    )
}

/// The batch handed to the callback: one such packet per descriptor drained
/// off RX, in ring order.
pub open spec fn batch_of(state: MockSocketState, n: int, b: PacketBatch) -> bool {
    &&& b.packets().len() == n
    &&& 0 <= n <= state.rx.pending().len()
    &&& forall|i: int|
        0 <= i < n ==> batch_packet_of(state, state.rx.pending()[i], #[trigger] b.packets()[i])
}

/// The batch size an engine keeps for a requested one: floored at one,
/// capped at `u32::MAX` (the most one RX peek can ask for).
pub open spec fn clamped_batch_size(requested: usize) -> int {
    if requested < 1 {
        1
    } else if requested > u32::MAX as usize {
        u32::MAX as int
    } else {
        requested as int
    }
}

/// The batch runner. It owns the socket aggregate and drives the cycle;
/// between `take_batch` and `commit_batch` it keeps its own copy of the
/// drained descriptors (`staged`), so nothing the callback does to its
/// batch can smuggle a foreign frame into the rings.
pub struct FluxEngine {
    /// The socket aggregate (rings and pool).
    pub socket: FluxRaw,
    /// Upper bound on packets per cycle.
    pub batch_size: usize,
    /// Polling strategy for a driving loop.
    pub poller: Poller,
    /// Descriptors of the in-flight batch, between take and commit.
    pub staged: Vec<XDPDesc>,
    /// Frames no longer reachable: never seeded onto FILL, or given up
    /// because FILL was full when they came back.
    pub lost: Ghost<int>,
}

impl FluxEngine {
    /// The engine invariant: the socket state is well-formed, every staged
    /// descriptor is a valid frame, and — frame conservation — the frames
    /// on the four rings, the staged frames and the lost frames together
    /// count exactly the pool's `frame_count`.
    pub open spec fn inv(self) -> bool {
        &&& self.socket.state.wf()
        &&& self.lost@ >= 0
        &&& self.socket.state.conserves(self.staged@.len() + self.lost@)
        &&& forall|i: int|
            0 <= i < self.staged@.len() ==> valid_desc(
                self.socket.state.layout(),
                #[trigger] self.staged@[i],
            )
        &&& 1 <= self.batch_size <= u32::MAX
    }

    /// Build an engine over a freshly bound socket and seed FILL with every
    /// frame of the pool, in index order; if the ring cannot take them all,
    /// seed as many as fit. Runs with the adaptive poller.
    pub fn new(socket: FluxRaw, batch_size: usize) -> (r: FluxEngine)
        requires
            socket.state.wf(),
            socket.state.fill.pending().len() == 0,
            socket.state.rx.pending().len() == 0,
            socket.state.tx.pending().len() == 0,
            socket.state.comp.pending().len() == 0,
        ensures
            r.inv(),
            r.poller == Poller::Adaptive,
            r.batch_size == clamped_batch_size(batch_size),
            r.staged@.len() == 0,
            r.socket.state.fill.pending().len() == if socket.state.layout().frame_count
                <= socket.state.fill.ring_size() {
                socket.state.layout().frame_count as int
            } else {
                socket.state.fill.ring_size()
            },
            forall|i: int|
                0 <= i < r.socket.state.fill.pending().len()
                    ==> #[trigger] r.socket.state.fill.pending()[i] == i * socket.state.layout().frame_size,
            r.socket.state.rx == socket.state.rx,
            r.socket.state.tx == socket.state.tx,
            r.socket.state.comp == socket.state.comp,
            r.socket.state.umem == socket.state.umem,
    {
        Self::with_config(socket, batch_size, Poller::Adaptive)
    }

    /// `new`, with the polling strategy chosen.
    pub fn with_config(socket: FluxRaw, batch_size: usize, poller: Poller) -> (r: FluxEngine)
        requires
            socket.state.wf(),
            socket.state.fill.pending().len() == 0,
            socket.state.rx.pending().len() == 0,
            socket.state.tx.pending().len() == 0,
            socket.state.comp.pending().len() == 0,
        ensures
            r.inv(),
            r.poller == poller,
            r.batch_size == clamped_batch_size(batch_size),
            r.staged@.len() == 0,
            r.socket.state.fill.pending().len() == if socket.state.layout().frame_count
                <= socket.state.fill.ring_size() {
                socket.state.layout().frame_count as int
            } else {
                socket.state.fill.ring_size()
            },
            forall|i: int|
                0 <= i < r.socket.state.fill.pending().len()
                    ==> #[trigger] r.socket.state.fill.pending()[i] == i * socket.state.layout().frame_size,
            r.socket.state.rx == socket.state.rx,
            r.socket.state.tx == socket.state.tx,
            r.socket.state.comp == socket.state.comp,
            r.socket.state.umem == socket.state.umem,
    {
        let mut socket = socket;
        proof {
            socket.state.umem.lemma_wf();
        }
        let layout = socket.state.umem.layout();
        let frame_count = layout.frame_count;
        let frame_size = layout.frame_size;
        socket.state.fill.index_protocol();
        let ring_size = socket.state.fill.len();
        let to_fill: u32 = if frame_count <= ring_size {
            frame_count
        } else {
            ring_size
        };
        let mut addrs: Vec<u64> = Vec::new();
        let mut i: u32 = 0;
        while i < to_fill
            invariant
                i <= to_fill,
                addrs@.len() == i as nat,
                forall|k: int| 0 <= k < i ==> #[trigger] addrs@[k] == k * frame_size,
                forall|k: int|
                    0 <= k < i ==> valid_frame_addr(
                        UmemLayout { frame_size, frame_count },
                        #[trigger] addrs@[k],
                    ),
                to_fill <= frame_count,
                frame_size >= 2048,
            decreases to_fill - i,
        {
            proof {
                crate::layout::lemma_u32_mul_fits_u64(i, frame_size);
                vstd::arithmetic::div_mod::lemma_mod_multiples_basic(
                    i as int,
                    frame_size as int,
                );
                vstd::arithmetic::mul::lemma_mul_inequality(
                    i + 1,
                    frame_count as int,
                    frame_size as int,
                );
                vstd::arithmetic::mul::lemma_mul_is_distributive_add_other_way(
                    frame_size as int,
                    i as int,
                    1,
                );
                vstd::arithmetic::mul::lemma_mul_is_commutative(
                    frame_count as int,
                    frame_size as int,
                );
            }
            let addr = (i as u64) * (frame_size as u64);
            addrs.push(addr);
            i = i + 1;
        }
        let seeded = socket.state.fill.append(&addrs);
        proof {
            assert(seeded);
        }
        let capped: usize = if batch_size < 1 {
            1
        } else if batch_size > 0xFFFF_FFFFusize {
            0xFFFF_FFFFusize
        } else {
            batch_size
        };
        let r = FluxEngine {
            socket,
            batch_size: capped,
            poller,
            staged: Vec::new(),
            lost: Ghost((frame_count - to_fill) as int),
        };
        proof {
            assert forall|k: int|
                0 <= k < r.socket.state.fill.pending().len() implies valid_frame_addr(
                r.socket.state.layout(),
                #[trigger] r.socket.state.fill.pending()[k],
            ) by {
                assert(r.socket.state.fill.pending()[k] == addrs@[k]);
            }
        }
        r
    }

    /// The handle of the socket this engine drives.
    pub fn socket_fd(&self) -> (r: i32)
        ensures
            r == self.socket.spec_fd(),
    {
        self.socket.fd()
    }

    /// Step one of the cycle: drain up to 32 completed transmissions and
    /// re-arm their frames on FILL. The COMPLETION entries are consumed
    /// either way; if FILL cannot take them all, the addresses are given
    /// up as lost rather than left on COMPLETION.
    pub fn recycle_completions(&mut self)
        requires
            old(self).inv(),
        ensures
            final(self).inv(),
            ({
                let comp = old(self).socket.state.comp.pending();
                let fill = old(self).socket.state.fill.pending();
                let k = if comp.len() < 32 {
                    comp.len() as int
                } else {
                    32
                };
                &&& final(self).socket.state.comp.pending() == comp.skip(k)
                &&& final(self).socket.state.fill.pending() == recycled_fill(
                    fill,
                    comp,
                    old(self).socket.state.fill.ring_size(),
                )
                &&& final(self).lost@ == old(self).lost@ + if k <= old(
                    self,
                ).socket.state.fill.ring_size() - fill.len() {
                    0
                } else {
                    k
                }
            }),
            final(self).socket.state.rx == old(self).socket.state.rx,
            final(self).socket.state.tx == old(self).socket.state.tx,
            final(self).socket.state.umem == old(self).socket.state.umem,
            final(self).socket.state.layout() == old(self).socket.state.layout(),
            final(self).socket.state.fill.ring_size() == old(self).socket.state.fill.ring_size(),
            final(self).socket.state.comp.ring_size() == old(self).socket.state.comp.ring_size(),
            final(self).staged == old(self).staged,
            final(self).batch_size == old(self).batch_size,
            final(self).poller == old(self).poller,
            final(self).socket.fd == old(self).socket.fd,
    {
        let k = self.socket.state.comp.peek(32);
        if k == 0 {
            proof {
                let comp = self.socket.state.comp.pending();
                assert(comp.skip(0) =~= comp);
                assert(self.socket.state.fill.pending() + comp.take(0)
                    =~= self.socket.state.fill.pending());
            }
            return ;
        }
        let addrs = self.socket.state.comp.take_prefix(k);
        let ghost layout = self.socket.state.layout();
        proof {
            assert forall|j: int| 0 <= j < addrs@.len() implies valid_frame_addr(
                layout,
                #[trigger] addrs@[j],
            ) by {
                assert(addrs@[j] == old(self).socket.state.comp.pending()[j]);
            }
        }
        let ok = self.socket.state.fill.append(&addrs);
        if !ok {
            self.lost = Ghost(self.lost@ + k as int);
        }
        self.socket.state.comp.release(k as u32);
        proof {
            if ok {
                assert forall|j: int|
                    0 <= j < self.socket.state.fill.pending().len() implies valid_frame_addr(
                    layout,
                    #[trigger] self.socket.state.fill.pending()[j],
                ) by {
                    let fill0 = old(self).socket.state.fill.pending();
                    if j < fill0.len() {
                        assert(self.socket.state.fill.pending()[j] == fill0[j]);
                    } else {
                        assert(self.socket.state.fill.pending()[j] == addrs@[j - fill0.len()]);
                    }
                }
            }
        }
    }

    /// Step two of the cycle: drain up to `batch_size` descriptors off RX
    /// and build the batch for the callback, every action starting as
    /// `Drop`. Returns `None`, leaving everything unchanged, when RX is
    /// empty (after nudging the receive path if it asked to be woken).
    /// The engine keeps its own copy of the drained descriptors.
    pub fn take_batch(&mut self) -> (r: Option<PacketBatch>)
        requires
            old(self).inv(),
            old(self).staged@.len() == 0,
        ensures
            final(self).inv(),
            r is Some <==> old(self).socket.state.rx.pending().len() > 0,
            r is None ==> *final(self) == *old(self),
            r matches Some(b) ==> ({
                let rx = old(self).socket.state.rx.pending();
                let n = if old(self).batch_size <= rx.len() {
                    old(self).batch_size as int
                } else {
                    rx.len() as int
                };
                &&& final(self).staged@ == rx.take(n)
                &&& final(self).socket.state.rx.pending() == rx.skip(n)
                &&& batch_of(old(self).socket.state, n, b)
                &&& final(self).socket.state.fill == old(self).socket.state.fill
                &&& final(self).socket.state.tx == old(self).socket.state.tx
                &&& final(self).socket.state.comp == old(self).socket.state.comp
                &&& final(self).socket.state.umem == old(self).socket.state.umem
                &&& final(self).lost == old(self).lost
                &&& final(self).batch_size == old(self).batch_size
                &&& final(self).poller == old(self).poller
                &&& final(self).socket.fd == old(self).socket.fd
            }),
    {
        proof {
            self.socket.state.umem.lemma_wf();
        }
        let frame_size = self.socket.state.umem.layout().frame_size;
        let count = self.socket.state.rx.peek(self.batch_size as u32);
        if count == 0 {
            if self.socket.needs_wakeup_rx() {
                let _ = self.socket.wakeup_rx();
            }
            return None;
        }
        let descs = self.socket.state.rx.take_prefix(count);
        self.socket.state.rx.release(count as u32);
        let ghost rx0 = old(self).socket.state.rx.pending();
        proof {
            assert forall|j: int| 0 <= j < descs@.len() implies valid_desc(
                self.socket.state.layout(),
                #[trigger] descs@[j],
            ) by {
                assert(descs@[j] == rx0[j]);
            }
        }
        let mut pkts: Vec<PacketRef> = Vec::new();
        let mut i: usize = 0;
        while i < count
            invariant
                count == descs@.len(),
                i <= count,
                pkts@.len() == i as nat,
                frame_size == self.socket.state.layout().frame_size,
                self.socket.state.umem.wf(),
                self.socket.state.umem == old(self).socket.state.umem,
                forall|j: int|
                    0 <= j < count ==> valid_desc(
                        self.socket.state.layout(),
                        #[trigger] descs@[j],
                    ),
                forall|j: int|
                    0 <= j < i ==> batch_packet_of(
                        old(self).socket.state,
                        descs@[j],
                        #[trigger] pkts@[j],
                    ),
            decreases count - i,
        {
            let d = descs[i];
            proof {
                self.socket.state.umem.lemma_wf();
            }
            let frame = self.socket.state.umem.read(d.addr, frame_size);
            pkts.push(PacketRef::new(frame, 0, d.len as usize, d.addr));
            i = i + 1;
        }
        self.staged = descs;
        Some(PacketBatch::new(pkts))
    }

    /// Steps four and five of the cycle, after the callback: write the
    /// batch's frames back to the pool, then commit the actions. The
    /// descriptors whose position says `Tx` go to the TX ring in order —
    /// all of them, or, if TX lacks the room, none, in which case every
    /// one of them is dropped instead. Every dropped frame's address then
    /// goes back to FILL in order; if FILL lacks the room those frames are
    /// lost. Returns the number of descriptors this batch consumed from
    /// RX, which always equals the TX commits plus the FILL returns plus
    /// the newly lost frames.
    pub fn commit_batch(&mut self, batch: PacketBatch) -> (r: usize)
        requires
            old(self).inv(),
        ensures
            final(self).inv(),
            r == old(self).staged@.len(),
            final(self).staged@.len() == 0,
            final(self).socket.state.rx == old(self).socket.state.rx,
            final(self).socket.state.comp == old(self).socket.state.comp,
            final(self).socket.state.layout() == old(self).socket.state.layout(),
            final(self).batch_size == old(self).batch_size,
            final(self).poller == old(self).poller,
            final(self).socket.fd == old(self).socket.fd,
            final(self).socket.state.umem.contents() == write_back(
                old(self).socket.state.umem.contents(),
                old(self).staged@,
                batch,
                old(self).socket.state.layout().frame_size as int,
            ),
            ({
                let staged = old(self).staged@;
                let txsel = select_by_action(staged, batch, Action::Tx);
                let tx0 = old(self).socket.state.tx.pending();
                let fill0 = old(self).socket.state.fill.pending();
                let tx_ok = txsel.len() <= old(self).socket.state.tx.ring_size() - tx0.len();
                let drops = if tx_ok {
                    addrs_of(select_by_action(staged, batch, Action::Drop))
                } else {
                    addrs_of(staged)
                };
                let fill_ok = drops.len() <= old(self).socket.state.fill.ring_size()
                    - fill0.len();
                &&& commit_outcome(
                    staged,
                    batch,
                    tx0,
                    fill0,
                    old(self).socket.state.tx.ring_size(),
                    old(self).socket.state.fill.ring_size(),
                    final(self).socket.state.tx.pending(),
                    final(self).socket.state.fill.pending(),
                    final(self).lost@ - old(self).lost@,
                )
                &&& r == (if tx_ok {
                    txsel.len() as int
                } else {
                    0
                }) + (if fill_ok {
                    drops.len() as int
                } else {
                    0
                }) + (final(self).lost@ - old(self).lost@)
            }),
    {
        proof {
            self.socket.state.umem.lemma_wf();
        }
        let n = self.staged.len();
        let frame_size = self.socket.state.umem.layout().frame_size;
        let ghost staged = self.staged@;
        let ghost contents0 = self.socket.state.umem.contents();
        let ghost layout = self.socket.state.layout();

        // Write the batch's frames back into the pool.
        let mut i: usize = 0;
        while i < n
            invariant
                n == staged.len(),
                i <= n,
                self.staged@ == staged,
                frame_size == layout.frame_size,
                layout == self.socket.state.layout(),
                self.socket.state.umem.wf(),
                self.socket.state.umem.spec_layout() == old(
                    self,
                ).socket.state.umem.spec_layout(),
                self.socket.state.umem.contents().len() == contents0.len(),
                forall|j: int| 0 <= j < n ==> valid_desc(layout, #[trigger] staged[j]),
                self.socket.state.umem.contents() == write_back(
                    contents0,
                    staged.take(i as int),
                    batch,
                    frame_size as int,
                ),
                self.socket.state.rx == old(self).socket.state.rx,
                self.socket.state.tx == old(self).socket.state.tx,
                self.socket.state.fill == old(self).socket.state.fill,
                self.socket.state.comp == old(self).socket.state.comp,
                self.lost == old(self).lost,
                self.batch_size == old(self).batch_size,
                self.poller == old(self).poller,
                self.socket.fd == old(self).socket.fd,
            decreases n - i,
        {
            let ghost pre = self.socket.state.umem.contents();
            let d = self.staged[i];
            if i < batch.len() {
                let p = batch.packet(i);
                let fb = p.frame_data();
                if p.addr() == d.addr && fb.len() == frame_size as usize {
                    proof {
                        self.socket.state.umem.lemma_wf();
                    }
                    self.socket.state.umem.write(d.addr, fb);
                    proof {
                        assert(self.socket.state.umem.contents() =~= splice(
                            pre,
                            d.addr as int,
                            fb@,
                        ));
                    }
                }
            }
            i = i + 1;
            proof {
                assert(staged.take(i as int).drop_last() =~= staged.take(i as int - 1));
                assert(staged.take(i as int).last() == staged[i as int - 1]);
            }
        }
        proof {
            assert(staged.take(n as int) =~= staged);
        }

        // The effective action of each position.
        let mut txv: Vec<XDPDesc> = Vec::new();
        let mut i: usize = 0;
        while i < n
            invariant
                n == staged.len(),
                n == self.staged@.len(),
                self.staged@ == staged,
                i <= n,
                txv@ == select_by_action(staged.take(i as int), batch, Action::Tx),
                forall|j: int| 0 <= j < n ==> valid_desc(layout, #[trigger] staged[j]),
                forall|j: int| 0 <= j < txv@.len() ==> valid_desc(layout, #[trigger] txv@[j]),
            decreases n - i,
        {
            let claim = if i < batch.len() {
                matches!(batch.packet(i).action(), Action::Tx)
            } else {
                false
            };
            if claim {
                txv.push(self.staged[i]);
            }
            i = i + 1;
            proof {
                assert(staged.take(i as int).drop_last() =~= staged.take(i as int - 1));
                assert(staged.take(i as int).last() == staged[i as int - 1]);
                assert(eff_action(batch, i as int - 1) == (if claim {
                    Action::Tx
                } else {
                    Action::Drop
                }));
            }
        }
        proof {
            assert(staged.take(n as int) =~= staged);
        }

        // Commit TX: all claimed descriptors, or none.
        let tx_ok = self.socket.state.tx.append(&txv);
        if tx_ok {
            if self.socket.needs_wakeup_tx() {
                let _ = self.socket.wakeup_tx();
            }
        }

        // Recycle the rest: dropped frames — all frames, if TX was full —
        // go back to FILL.
        let mut dropv: Vec<u64> = Vec::new();
        let mut i: usize = 0;
        while i < n
            invariant
                n == staged.len(),
                n == self.staged@.len(),
                self.staged@ == staged,
                i <= n,
                tx_ok ==> dropv@ == addrs_of(select_by_action(staged.take(i as int), batch, Action::Drop)),
                !tx_ok ==> dropv@ == addrs_of(staged.take(i as int)),
                forall|j: int| 0 <= j < n ==> valid_desc(layout, #[trigger] staged[j]),
                forall|j: int|
                    0 <= j < dropv@.len() ==> valid_frame_addr(layout, #[trigger] dropv@[j]),
            decreases n - i,
        {
            let claim = if i < batch.len() {
                matches!(batch.packet(i).action(), Action::Tx)
            } else {
                false
            };
            if !tx_ok || !claim {
                dropv.push(self.staged[i].addr);
            }
            i = i + 1;
            proof {
                assert(staged.take(i as int).drop_last() =~= staged.take(i as int - 1));
                assert(staged.take(i as int).last() == staged[i as int - 1]);
                assert(eff_action(batch, i as int - 1) == (if claim {
                    Action::Tx
                } else {
                    Action::Drop
                }));
                if tx_ok {
                    assert(dropv@ =~= addrs_of(
                        select_by_action(staged.take(i as int), batch, Action::Drop),
                    ));
                } else {
                    assert(dropv@ =~= addrs_of(staged.take(i as int)));
                }
            }
        }
        proof {
            assert(staged.take(n as int) =~= staged);
            if tx_ok {
                assert(dropv@ =~= addrs_of(select_by_action(staged, batch, Action::Drop)));
            } else {
                assert(dropv@ =~= addrs_of(staged));
            }
        }
        let fill_ok = self.socket.state.fill.append(&dropv);
        if !fill_ok {
            self.lost = Ghost(self.lost@ + dropv.len() as int);
        }
        self.staged = Vec::new();
        proof {
            lemma_select_partition(staged, batch);
            let state = self.socket.state;
            if tx_ok {
                assert forall|j: int| 0 <= j < state.tx.pending().len() implies valid_desc(
                    layout,
                    #[trigger] state.tx.pending()[j],
                ) by {
                    let tx0 = old(self).socket.state.tx.pending();
                    if j < tx0.len() {
                        assert(state.tx.pending()[j] == tx0[j]);
                    } else {
                        assert(state.tx.pending()[j] == txv@[j - tx0.len()]);
                    }
                }
            }
            if fill_ok {
                assert forall|j: int| 0 <= j < state.fill.pending().len() implies valid_frame_addr(
                    layout,
                    #[trigger] state.fill.pending()[j],
                ) by {
                    let fill0 = old(self).socket.state.fill.pending();
                    if j < fill0.len() {
                        assert(state.fill.pending()[j] == fill0[j]);
                    } else {
                        assert(state.fill.pending()[j] == dropv@[j - fill0.len()]);
                    }
                }
            }
        }
        n
    }

    /// One full batch cycle: recycle completed transmissions, drain RX,
    /// hand the batch to `callback`, and commit whatever batch it returns.
    /// Returns the number of descriptors consumed from RX; zero, without
    /// calling the callback, when RX was empty. The callback may mutate
    /// packet bytes, move packet windows and set actions; whatever it
    /// returns, the engine commits only frames it drained itself, so the
    /// conservation invariant survives any callback.
    pub fn process_batch<F: Fn(PacketBatch) -> PacketBatch>(&mut self, callback: &F) -> (r: Result<
        usize,
        FluxError,
    >)
        requires
            old(self).inv(),
            old(self).staged@.len() == 0,
            forall|b: PacketBatch| #[trigger] call_requires(*callback, (b,)),
        ensures
            final(self).inv(),
            final(self).staged@.len() == 0,
            final(self).batch_size == old(self).batch_size,
            final(self).poller == old(self).poller,
            final(self).socket.fd == old(self).socket.fd,
            final(self).socket.state.layout() == old(self).socket.state.layout(),
            r matches Ok(n) && n as int == (if old(self).batch_size <= old(
                self,
            ).socket.state.rx.pending().len() {
                old(self).batch_size as int
            } else {
                old(self).socket.state.rx.pending().len() as int
            }),
            ({
                let rx0 = old(self).socket.state.rx.pending();
                let comp0 = old(self).socket.state.comp.pending();
                let k = if comp0.len() < 32 {
                    comp0.len() as int
                } else {
                    32
                };
                &&& final(self).socket.state.comp.pending() == comp0.skip(k)
                &&& final(self).socket.state.rx.pending() == rx0.skip(
                    if old(self).batch_size <= rx0.len() {
                        old(self).batch_size as int
                    } else {
                        rx0.len() as int
                    },
                )
            }),
            old(self).socket.state.rx.pending().len() == 0 ==> {
                &&& final(self).socket.state.tx == old(self).socket.state.tx
                &&& final(self).socket.state.umem == old(self).socket.state.umem
                &&& final(self).socket.state.fill.pending() == recycled_fill(
                    old(self).socket.state.fill.pending(),
                    old(self).socket.state.comp.pending(),
                    old(self).socket.state.fill.ring_size(),
                )
            },
            old(self).socket.state.rx.pending().len() > 0 ==> (exists|
                b1: PacketBatch,
                b2: PacketBatch,
            |
                {
                    let rx0 = old(self).socket.state.rx.pending();
                    let n = if old(self).batch_size <= rx0.len() {
                        old(self).batch_size as int
                    } else {
                        rx0.len() as int
                    };
                    let staged = rx0.take(n);
                    let fill_mid = recycled_fill(
                        old(self).socket.state.fill.pending(),
                        old(self).socket.state.comp.pending(),
                        old(self).socket.state.fill.ring_size(),
                    );
                    &&& batch_of(old(self).socket.state, n, b1)
                    &&& #[trigger] call_ensures(*callback, (b1,), b2)
                    &&& commit_outcome(
                        staged,
                        b2,
                        old(self).socket.state.tx.pending(),
                        fill_mid,
                        old(self).socket.state.tx.ring_size(),
                        old(self).socket.state.fill.ring_size(),
                        final(self).socket.state.tx.pending(),
                        final(self).socket.state.fill.pending(),
                        final(self).lost@ - old(self).lost@ - (if comp_take(
                            old(self).socket.state.comp.pending(),
                        ) <= old(self).socket.state.fill.ring_size() - old(
                            self,
                        ).socket.state.fill.pending().len() {
                            0int
                        } else {
                            comp_take(old(self).socket.state.comp.pending())
                        }),
                    )
                    &&& final(self).socket.state.umem.contents() == write_back(
                        old(self).socket.state.umem.contents(),
                        staged,
                        b2,
                        old(self).socket.state.layout().frame_size as int,
                    )
                }),
    {
        self.recycle_completions();
        let taken = self.take_batch();
        let b1 = match taken {
            None => {
                proof {
                    let rx0 = old(self).socket.state.rx.pending();
                    assert(rx0.skip(0) =~= rx0);
                }
                return Ok(0);
            },
            Some(b) => b,
        };
        let ghost gb1 = b1;
        let b2 = callback(b1);
        let ghost gb2 = b2;
        let n = self.commit_batch(b2);
        proof {
            let rx0 = old(self).socket.state.rx.pending();
            let nn = if old(self).batch_size <= rx0.len() {
                old(self).batch_size as int
            } else {
                rx0.len() as int
            };
            assert(batch_of(old(self).socket.state, nn, gb1));
            assert(call_ensures(*callback, (gb1,), gb2));
        }
        Ok(n)
    }
}

/// Frame conservation, stated on its own: under the engine invariant,
/// the frames pending on the four rings, the frames staged in the engine's
/// hands, and the frames lost to a full FILL ring together account for
/// every frame of the pool.
pub proof fn lemma_frame_conservation(e: FluxEngine)
    requires
        e.inv(),
    ensures
        e.socket.state.fill.pending().len() + e.socket.state.rx.pending().len()
            + e.socket.state.tx.pending().len() + e.socket.state.comp.pending().len()
            + e.staged@.len() + e.lost@ == e.socket.state.layout().frame_count,
{
}

/// How many COMPLETION entries one recycle step takes: at most 32.
pub open spec fn comp_take(comp: Seq<u64>) -> int {
    if comp.len() < 32 {
        comp.len() as int
    } else {
        32
    }
}

} // verus!
