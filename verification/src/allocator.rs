use crate::layout::UmemLayout;
use std::collections::VecDeque;
use vstd::prelude::*;

verus! {

/// A FIFO of free frame addresses for ad-hoc transmit staging. The engine's
/// hot path does not use it: frames circulate through the rings directly.
pub struct UmemAllocator {
    free_frames: VecDeque<u64>,
    layout: UmemLayout,
}

impl UmemAllocator {
    /// The free addresses, in allocation order.
    pub closed spec fn free_list(self) -> Seq<u64> {
        self.free_frames@
    }

    /// Starts with every frame free, in index order: the address of frame
    /// `i` is `i * frame_size`.
    pub fn new(layout: UmemLayout) -> (r: Self)
        requires
            layout.wf(),
        ensures
            r.free_list() == Seq::new(
                layout.frame_count as nat,
                |i: int| layout.frame_addr(i) as u64,
            ),
    {
        let mut free_frames: VecDeque<u64> = VecDeque::new();
        let mut i: u32 = 0;
        while i < layout.frame_count
            invariant
                layout.wf(),
                i <= layout.frame_count,
                free_frames@ == Seq::new(i as nat, |j: int| layout.frame_addr(j) as u64),
            decreases layout.frame_count - i,
        {
            if let Some(addr) = layout.idx_to_addr(i) {
                free_frames.push_back(addr);
            }
            i = i + 1;
            proof {
                assert(free_frames@ =~= Seq::new(i as nat, |j: int| layout.frame_addr(j) as u64));
            }
        }
        UmemAllocator { free_frames, layout }
    }

    /// Take the oldest free address, if any.
    pub fn allocate(&mut self) -> (r: Option<u64>)
        ensures
            r == if old(self).free_list().len() > 0 {
                Some(old(self).free_list()[0])
            } else {
                None::<u64>
            },
            final(self).free_list() == if old(self).free_list().len() > 0 {
                old(self).free_list().skip(1)
            } else {
                old(self).free_list()
            },
    {
        let r = self.free_frames.pop_front();
        proof {
            if old(self).free_list().len() > 0 {
                assert(self.free_frames@ =~= old(self).free_list().skip(1));
            }
        }
        r
    }

    /// Return an address to the back of the free list.
    pub fn release(&mut self, addr: u64)
        ensures
            final(self).free_list() == old(self).free_list().push(addr),
    {
        self.free_frames.push_back(addr);
    }

    /// Number of free addresses.
    pub fn available(&self) -> (r: usize)
        ensures
            r == self.free_list().len(),
    {
        self.free_frames.len()
    }
}

} // verus!
