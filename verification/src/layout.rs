use vstd::arithmetic::div_mod::{
    lemma_div_by_multiple, lemma_div_multiples_vanish, lemma_fundamental_div_mod,
    lemma_multiply_divide_lt,
};
use vstd::prelude::*;

verus! {

/// Geometry of the shared frame pool: `frame_count` frames of `frame_size`
/// bytes each, laid out contiguously. A frame address is a byte offset from
/// the base of the pool; the frame with index `i` starts at `i * frame_size`.
#[derive(Debug, Clone, Copy, PartialEq, Eq, Structural)]
pub struct UmemLayout {
    pub frame_size: u32,
    pub frame_count: u32,
}

/// A product of two `u32` values always fits in a `u64`.
pub(crate) proof fn lemma_u32_mul_fits_u64(a: u32, b: u32)
    ensures
        0 <= a as int * b as int <= u64::MAX as int,
{
    assert(0 <= a as int * b as int <= 0xFFFF_FFFF * 0xFFFF_FFFF) by (nonlinear_arith)
        requires
            0 <= a <= 0xFFFF_FFFF,
            0 <= b <= 0xFFFF_FFFF,
    ;
}

impl UmemLayout {
    /// Validity of the geometry: the frame size is a power of two of at
    /// least 2048 bytes.
    pub open spec fn wf(self) -> bool {
        &&& vstd::arithmetic::power2::is_pow2(self.frame_size as int)
        &&& self.frame_size >= 2048
    }

    /// Total pool size in bytes.
    pub open spec fn spec_size(self) -> int {
        self.frame_size * self.frame_count
    }

    /// The address of the frame with index `idx`, as the mapping itself
    /// (defined on every index; `idx_to_addr` rejects out-of-range ones).
    pub open spec fn frame_addr(self, idx: int) -> int {
        idx * self.frame_size
    }

    pub fn new(frame_size: u32, frame_count: u32) -> (r: Self)
        requires
            vstd::arithmetic::power2::is_pow2(frame_size as int),
            frame_size >= 2048,
        ensures
            r == (UmemLayout { frame_size, frame_count }),
            r.wf(),
    {
        UmemLayout { frame_size, frame_count }
    }

    /// Total pool size in bytes: `frame_size * frame_count`.
    pub fn size(&self) -> (r: u64)
        ensures
            r == self.spec_size(),
    {
        proof {
            lemma_u32_mul_fits_u64(self.frame_size, self.frame_count);
        }
        (self.frame_size as u64) * (self.frame_count as u64)
    }

    /// The index of the frame containing `addr`, or `None` when `addr` lies
    /// outside the pool.
    pub fn addr_to_idx(&self, addr: u64) -> (r: Option<u32>)
        requires
            self.wf(),
        ensures
            r == if addr < self.spec_size() {
                Some((addr as int / self.frame_size as int) as u32)
            } else {
                None::<u32>
            },
    {
        if addr >= self.size() {
            return None;
        }
        proof {
            lemma_multiply_divide_lt(addr as int, self.frame_size as int, self.frame_count as int);
        }
        Some((addr / (self.frame_size as u64)) as u32)
    }

    /// The base address of the frame with index `idx`, or `None` when `idx`
    /// is outside the pool.
    pub fn idx_to_addr(&self, idx: u32) -> (r: Option<u64>)
        requires
            self.wf(),
        ensures
            r == if idx < self.frame_count {
                Some(self.frame_addr(idx as int) as u64)
            } else {
                None::<u64>
            },
    {
        if idx >= self.frame_count {
            return None;
        }
        proof {
            lemma_u32_mul_fits_u64(idx, self.frame_size);
        }
        Some((idx as u64) * (self.frame_size as u64))
    }

    /// Address arithmetic is a bijection between frame indices and aligned
    /// in-pool addresses: converting an index to its address and back yields
    /// the index, and converting an aligned in-pool address to its index and
    /// back yields the address.
    pub proof fn lemma_addr_idx_round_trip(self)
        requires
            self.wf(),
        ensures
            forall|idx: int|
                0 <= idx < self.frame_count ==> #[trigger] self.frame_addr(idx) / self.frame_size as int
                    == idx,
            forall|addr: int|
                0 <= addr < self.spec_size() && addr % self.frame_size as int == 0
                    ==> #[trigger] self.frame_addr(addr / self.frame_size as int) == addr,
    {
        assert forall|idx: int| 0 <= idx < self.frame_count implies #[trigger] self.frame_addr(idx)
            / self.frame_size as int == idx by {
            lemma_div_by_multiple(idx, self.frame_size as int);
        }
        assert forall|addr: int|
            0 <= addr < self.spec_size() && addr % self.frame_size as int
                == 0 implies #[trigger] self.frame_addr(addr / self.frame_size as int) == addr by {
            lemma_fundamental_div_mod(addr, self.frame_size as int);
        }
    }
}

} // verus!
