use crate::error::FluxError;
use crate::layout::UmemLayout;
use vstd::prelude::*;

verus! {

/// The shared packet memory: one contiguous pool of `frame_count` frames of
/// `frame_size` bytes. In production this region is page-aligned memory
/// registered with the kernel; the in-process back-end owns it directly, so
/// every access is bounds-checked and verified.
pub struct UmemRegion {
    bytes: Vec<u8>,
    layout: UmemLayout,
}

impl UmemRegion {
    /// The geometry of the pool.
    pub closed spec fn spec_layout(self) -> UmemLayout {
        self.layout
    }

    /// The pool's bytes.
    pub closed spec fn contents(self) -> Seq<u8> {
        self.bytes@
    }

    /// A valid pool: well-formed geometry, and exactly `layout.size()`
    /// bytes of storage.
    pub closed spec fn wf(self) -> bool {
        &&& self.layout.wf()
        &&& self.bytes@.len() == self.layout.spec_size()
    }

    /// What validity gives: the geometry is well-formed and the storage has
    /// exactly `layout.size()` bytes.
    pub proof fn lemma_wf(self)
        requires
            self.wf(),
        ensures
            self.spec_layout().wf(),
            self.contents().len() == self.spec_layout().spec_size(),
    {
    }

    /// A zeroed pool of `layout.size()` bytes.
    pub fn new(layout: UmemLayout) -> (r: Result<UmemRegion, FluxError>)
        requires
            layout.wf(),
            layout.spec_size() <= usize::MAX,
        ensures
            r matches Ok(u) && u.wf() && u.spec_layout() == layout && u.contents() == Seq::new(
                layout.spec_size() as nat,
                |i: int| 0u8,
            ),
    {
        let n = layout.size() as usize;
        let bytes = crate::ring::filled(0u8, n);
        Ok(UmemRegion { bytes, layout })
    }

    /// The geometry of the pool.
    pub fn layout(&self) -> (r: UmemLayout)
        requires
            self.wf(),
        ensures
            r == self.spec_layout(),
            r.wf(),
            self.contents().len() == r.spec_size(),
    {
        self.layout
    }

    /// Pool size in bytes.
    pub fn len(&self) -> (r: u64)
        requires
            self.wf(),
        ensures
            r == self.contents().len(),
    {
        self.layout.size()
    }

    /// Copy `len` bytes out of the pool, starting at `addr`.
    pub fn read(&self, addr: u64, len: u32) -> (r: Vec<u8>)
        requires
            self.wf(),
            addr + len <= self.contents().len(),
        ensures
            r@ == self.contents().subrange(addr as int, addr as int + len as int),
    {
        let total = self.bytes.len();
        let mut r: Vec<u8> = Vec::new();
        let start = addr as usize;
        let mut i: usize = 0;
        while i < len as usize
            invariant
                addr + len <= self.contents().len(),
                total == self.contents().len(),
                start == addr,
                i <= len,
                r@ == self.contents().subrange(addr as int, addr as int + i as int),
            decreases len as usize - i,
        {
            r.push(self.bytes[start + i]);
            i = i + 1;
            proof {
                assert(r@ =~= self.contents().subrange(addr as int, addr as int + i as int));
            }
        }
        r
    }

    /// Copy `data` into the pool at `addr`; every other byte is untouched.
    pub fn write(&mut self, addr: u64, data: &Vec<u8>)
        requires
            old(self).wf(),
            addr + data@.len() <= old(self).contents().len(),
        ensures
            final(self).wf(),
            final(self).spec_layout() == old(self).spec_layout(),
            final(self).contents().len() == old(self).contents().len(),
            forall|i: int|
                0 <= i < old(self).contents().len() ==> final(self).contents()[i] == if addr <= i
                    < addr + data@.len() {
                    data@[i - addr]
                } else {
                    old(self).contents()[i]
                },
    {
        let total = self.bytes.len();
        let start = addr as usize;
        let mut i: usize = 0;
        while i < data.len()
            invariant
                addr + data@.len() <= old(self).contents().len(),
                total == old(self).contents().len(),
                total == self.bytes@.len(),
                start == addr,
                i <= data@.len(),
                self.layout == old(self).spec_layout(),
                old(self).wf(),
                self.layout == old(self).layout,
                forall|j: int|
                    0 <= j < old(self).contents().len() ==> self.bytes@[j] == if addr <= j < addr
                        + i {
                        data@[j - addr]
                    } else {
                        old(self).contents()[j]
                    },
            decreases data@.len() - i,
        {
            self.bytes[start + i] = data[i];
            i = i + 1;
        }
    }
}

} // verus!
