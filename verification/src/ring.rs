//! The single-producer/single-consumer ring protocol over free-running
//! 32-bit indices.
//!
//! A ring of power-of-two size `n` holds its entries in `slots`; the slot for
//! logical index `i` is `slots[i % n]`. The `producer` and `consumer` indices
//! run freely modulo `2^32`; the published-but-unconsumed entries are the
//! logical range `consumer..producer` under wrapping subtraction. One side of
//! each ring belongs to the application, the other to the back-end standing
//! in for the kernel (the `peer_*` methods).

use vstd::arithmetic::div_mod::{
    lemma_add_mod_noop, lemma_mod_equivalence, lemma_mod_mod, lemma_small_mod,
};
use vstd::arithmetic::power::pow;
use vstd::arithmetic::power2::{is_pow2, is_pow2_equiv, is_pow2_exists, lemma2_to64, lemma_pow2_adds};
use vstd::prelude::*;

verus! {

/// `p - c` under wrapping 32-bit subtraction, as a mathematical integer.
pub open spec fn wrap_delta(p: u32, c: u32) -> int {
    if p >= c {
        p - c
    } else {
        0x1_0000_0000 - c + p
    }
}

/// The 32-bit index `k` steps past `base`, `0 <= k < 2^32`.
pub open spec fn wrap_add_u32(base: u32, k: int) -> u32 {
    (((base + k) % 0x1_0000_0000) as u32)
}

/// A ring size is valid when it is a power of two no larger than `2^31`.
pub open spec fn valid_ring_size(n: int) -> bool {
    is_pow2(n) && n <= 0x8000_0000
}

/// Reducing a logical index modulo `2^32` does not change its slot: a valid
/// ring size divides `2^32`.
proof fn lemma_mod_wrap(l: int, n: int)
    requires
        valid_ring_size(n),
        0 <= l,
    ensures
        (l % 0x1_0000_0000) % n == l % n,
{
    is_pow2_equiv(n);
    assert(is_pow2_exists(n));
    let i = choose|i: nat| pow(2, i) == n;
    lemma2_to64();
    vstd::arithmetic::power::lemma_pow_positive(2, i);
    assert(pow2(i) == n);
    if i > 32 {
        vstd::arithmetic::power2::lemma_pow2_strictly_increases(32, i);
    }
    let b = pow2((32 - i) as nat);
    lemma_pow2_adds(i, (32 - i) as nat);
    vstd::arithmetic::power2::lemma_pow2_pos((32 - i) as nat);
    assert(n * b == 0x1_0000_0000);
    lemma_mod_mod(l, n, b as int);
}

use vstd::arithmetic::power2::pow2;

/// Two distinct logical offsets within one ring-size window land on distinct
/// slots.
proof fn lemma_offsets_distinct(c: u32, x1: int, x2: int, n: int)
    requires
        valid_ring_size(n),
        0 <= x1 < x2 < n,
    ensures
        (c + x1) % n != (c + x2) % n,
{
    let a = c + x1;
    let d = x2 - x1;
    lemma_mod_equivalence(a + d, a, n);
    lemma_small_mod(d as nat, n as nat);
}

/// Two logical indices congruent modulo the ring size stay congruent after
/// stepping both by `k`.
proof fn lemma_slot_congruent(base1: int, base2: int, k: int, n: int)
    requires
        0 < n,
        base1 % n == base2 % n,
    ensures
        (base1 + k) % n == (base2 + k) % n,
{
    lemma_add_mod_noop(base1, k, n);
    lemma_add_mod_noop(base2, k, n);
}

/// The delta from `base` to `base + k` is `k` itself, for `k` within one
/// wrap: where a ring starts in the index space makes no difference to the
/// protocol.
pub proof fn lemma_wrap_delta_of_add(base: u32, k: int)
    requires
        0 <= k < 0x1_0000_0000,
    ensures
        wrap_delta(wrap_add_u32(base, k), base) == k,
{
}

/// Stepping `base` by `x` and then by `y` is stepping it by `x + y`.
pub proof fn lemma_wrap_add_assoc(base: u32, x: int, y: int)
    requires
        0 <= x,
        0 <= y,
    ensures
        wrap_add_u32(wrap_add_u32(base, x), y) == wrap_add_u32(base, x + y),
{
    lemma_add_mod_noop(base + x, y, 0x1_0000_0000);
}

/// An index is its base stepped by their delta.
pub proof fn lemma_wrap_delta_inverse(p: u32, c: u32)
    ensures
        wrap_add_u32(c, wrap_delta(p, c)) == p,
{
}

/// Ring round-trip law: the pending view is a queue. A producer that
/// publishes `items` behind an existing `backlog` extends the view to
/// `backlog + items` (the contract of `append`, and of `write_at` with
/// `submit`); a consumer that takes entries off the front reads the view's
/// prefix in order and leaves its suffix (the contracts of `take_prefix`,
/// `read_at` and `release`). So whatever is produced after the backlog is
/// consumed is exactly `items`, in production order.
pub proof fn lemma_fifo_round_trip<T>(backlog: Seq<T>, items: Seq<T>)
    ensures
        (backlog + items).take(backlog.len() as int) == backlog,
        (backlog + items).skip(backlog.len() as int) == items,
{
    assert((backlog + items).take(backlog.len() as int) =~= backlog);
    assert((backlog + items).skip(backlog.len() as int) =~= items);
}

/// Whether `n` is a power of two, decided at run time.
pub fn is_power_of_two_u32(n: u32) -> (r: bool)
    ensures
        r == is_pow2(n as int),
{
    proof {
        reveal(is_pow2);
    }
    if n == 0 {
        return false;
    }
    let mut m = n;
    while m > 1
        invariant
            m >= 1,
            is_pow2(n as int) == is_pow2(m as int),
        decreases m,
    {
        proof {
            reveal(is_pow2);
        }
        if m % 2 == 1 {
            return false;
        }
        m = m / 2;
    }
    proof {
        reveal(is_pow2);
    }
    true
}

/// A `Vec` of `n` copies of `item`, for ring and frame storage.
pub fn filled<T: Copy>(item: T, n: usize) -> (r: Vec<T>)
    ensures
        r@ == Seq::new(n as nat, |i: int| item),
{
    let mut r: Vec<T> = Vec::new();
    let mut i: usize = 0;
    while i < n
        invariant
            i <= n,
            r@ == Seq::new(i as nat, |j: int| item),
        decreases n - i,
    {
        r.push(item);
        i = i + 1;
        proof {
            assert(r@ =~= Seq::new(i as nat, |j: int| item));
        }
    }
    r
}

/// The application-side producer half of a ring (FILL and TX): the
/// application publishes entries, the kernel side consumes them.
pub struct ProducerRing<T> {
    slots: Vec<T>,
    producer: u32,
    consumer: u32,
}

/// The application-side consumer half of a ring (RX and COMPLETION): the
/// kernel side publishes entries, the application consumes them.
pub struct ConsumerRing<T> {
    slots: Vec<T>,
    producer: u32,
    consumer: u32,
}

impl<T> ProducerRing<T> {
    /// The index protocol invariant: the ring size is a valid power of two
    /// and at most `size` entries are outstanding.
    #[verifier::type_invariant]
    pub closed spec fn wf(self) -> bool {
        &&& valid_ring_size(self.slots@.len() as int)
        &&& wrap_delta(self.producer, self.consumer) <= self.slots@.len()
    }

    /// Number of slots.
    pub closed spec fn ring_size(self) -> int {
        self.slots@.len() as int
    }

    /// The free-running producer index.
    pub closed spec fn prod(self) -> u32 {
        self.producer
    }

    /// The free-running consumer index.
    pub closed spec fn cons(self) -> u32 {
        self.consumer
    }

    /// The entry stored for logical index `l` (any representative of its
    /// residue class modulo the ring size).
    pub closed spec fn slot_at(self, l: int) -> T {
        self.slots@[l % self.ring_size()]
    }

    /// The published-but-unconsumed entries, oldest first.
    pub open spec fn pending(self) -> Seq<T> {
        Seq::new(
            wrap_delta(self.prod(), self.cons()) as nat,
            |k: int| self.slot_at(self.cons() + k),
        )
    }

    /// The protocol invariant, stated publicly: at every observable instant
    /// `0 <= producer - consumer <= size` under wrapping subtraction. The
    /// bound is a type invariant, so it holds of every ring a caller can
    /// ever have; this no-op makes the fact available at a call site.
    pub fn index_protocol(&self)
        ensures
            0 <= wrap_delta(self.prod(), self.cons()) <= self.ring_size(),
            valid_ring_size(self.ring_size()),
            self.pending().len() == wrap_delta(self.prod(), self.cons()),
    {
        proof {
            use_type_invariant(self);
        }
    }

}

impl<T: Copy> ProducerRing<T> {
    /// A fresh ring over the given storage, whose length must be a valid
    /// ring size. Both indices start at `start` (the kernel hands rings over
    /// zeroed, but nothing in the protocol depends on the start).
    pub fn with_start(storage: Vec<T>, start: u32) -> (r: Self)
        requires
            valid_ring_size(storage@.len() as int),
        ensures
            r.ring_size() == storage@.len(),
            r.prod() == start,
            r.cons() == start,
            r.pending() == Seq::<T>::empty(),
            forall|l: int| 0 <= l ==> r.slot_at(l) == storage@[l % storage@.len() as int],
    {
        let r = ProducerRing { slots: storage, producer: start, consumer: start };
        proof {
            assert(r.pending() =~= Seq::<T>::empty());
        }
        r
    }

    /// A fresh empty ring with both indices at zero.
    pub fn new(storage: Vec<T>) -> (r: Self)
        requires
            valid_ring_size(storage@.len() as int),
        ensures
            r.ring_size() == storage@.len(),
            r.prod() == 0,
            r.cons() == 0,
            r.pending() == Seq::<T>::empty(),
    {
        Self::with_start(storage, 0)
    }

    /// Ring size in entries.
    pub fn len(&self) -> (r: u32)
        ensures
            r == self.ring_size(),
    {
        proof {
            use_type_invariant(self);
        }
        self.slots.len() as u32
    }

    /// Number of slots the producer may still fill: `size - (producer -
    /// consumer)`.
    pub fn available(&self) -> (r: u32)
        ensures
            r == self.ring_size() - self.pending().len(),
    {
        proof {
            use_type_invariant(self);
        }
        let size = self.slots.len() as u32;
        size - self.producer.wrapping_sub(self.consumer)
    }

    /// The current producer index, where the next published entry will go.
    pub fn producer_index(&self) -> (r: u32)
        ensures
            r == self.prod(),
    {
        self.producer
    }

    /// Ask for room for `count` entries. Returns the current producer index
    /// when all `count` fit, and `None` otherwise — never a truncated range.
    /// The ring itself is not changed.
    pub fn reserve(&mut self, count: u32) -> (r: Option<u32>)
        ensures
            *final(self) == *old(self),
            r == if count <= old(self).ring_size() - old(self).pending().len() {
                Some(old(self).prod())
            } else {
                None::<u32>
            },
    {
        proof {
            use_type_invariant(&*self);
        }
        let size = self.slots.len() as u32;
        let available = size - self.producer.wrapping_sub(self.consumer);
        if available < count {
            return None;
        }
        Some(self.producer)
    }

    /// Store `item` for logical index `idx`, which must lie in the reserved
    /// region past the published entries. Nothing is published yet: the
    /// pending entries are unchanged until `submit`.
    pub fn write_at(&mut self, idx: u32, item: T)
        requires
            old(self).pending().len() <= wrap_delta(idx, old(self).cons()) < old(self).ring_size(),
        ensures
            final(self).prod() == old(self).prod(),
            final(self).cons() == old(self).cons(),
            final(self).ring_size() == old(self).ring_size(),
            final(self).pending() == old(self).pending(),
            forall|l: int|
                0 <= l ==> final(self).slot_at(l) == if l % old(self).ring_size() == idx as int
                    % old(self).ring_size() {
                    item
                } else {
                    old(self).slot_at(l)
                },
    {
        proof {
            use_type_invariant(&*self);
        }
        let n = self.slots.len();
        let off = (idx as usize) % n;
        self.slots[off] = item;
        proof {
            let size = self.ring_size();
            assert forall|l: int| 0 <= l implies self.slot_at(l) == if l % size == idx as int
                % size {
                item
            } else {
                old(self).slot_at(l)
            } by {}
            let d = wrap_delta(idx, old(self).cons());
            assert forall|k: int| 0 <= k < self.pending().len() implies self.pending()[k] == old(
                self,
            ).pending()[k] by {
                let c = old(self).cons();
                lemma_mod_wrap(c + d, size);
                assert(idx as int == (c + d) % 0x1_0000_0000);
                lemma_mod_wrap(c + k, size);
                lemma_offsets_distinct(c, k, d, size);
            }
            assert(self.pending() =~= old(self).pending());
        }
    }

    /// Publish everything written up to (not including) logical index
    /// `new_producer`: afterwards the pending entries run from the unchanged
    /// consumer index to `new_producer`.
    pub fn submit(&mut self, new_producer: u32)
        requires
            wrap_delta(old(self).prod(), old(self).cons()) <= wrap_delta(
                new_producer,
                old(self).cons(),
            ) <= old(self).ring_size(),
        ensures
            final(self).prod() == new_producer,
            final(self).cons() == old(self).cons(),
            final(self).ring_size() == old(self).ring_size(),
            forall|l: int| 0 <= l ==> final(self).slot_at(l) == old(self).slot_at(l),
            final(self).pending().len() == wrap_delta(new_producer, old(self).cons()),
            forall|k: int|
                0 <= k < final(self).pending().len() ==> final(self).pending()[k] == old(
                    self,
                ).slot_at(old(self).cons() + k),
    {
        proof {
            use_type_invariant(&*self);
        }
        self.producer = new_producer;
    }

    /// Publish all of `items` at once — reserve, write, submit — or nothing
    /// when fewer than `items.len()` slots are free: the ring is never
    /// partially extended.
    pub fn append(&mut self, items: &Vec<T>) -> (r: bool)
        ensures
            final(self).ring_size() == old(self).ring_size(),
            final(self).cons() == old(self).cons(),
            r == (items@.len() <= old(self).ring_size() - old(self).pending().len()),
            r ==> final(self).pending() == old(self).pending() + items@ && final(self).prod()
                == wrap_add_u32(old(self).prod(), items@.len() as int),
            !r ==> *final(self) == *old(self),
    {
        proof {
            use_type_invariant(&*self);
        }
        let n = self.slots.len() as u32;
        let avail = n - self.producer.wrapping_sub(self.consumer);
        if items.len() > avail as usize {
            return false;
        }
        let count = items.len();
        let start = self.producer;
        let ghost c = self.consumer;
        let ghost d0 = wrap_delta(start, c);
        let ghost size = self.ring_size();
        proof {
            lemma_wrap_delta_inverse(start, c);
        }
        let mut i: usize = 0;
        while i < count
            invariant
                count == items@.len(),
                i <= count,
                d0 == wrap_delta(start, c),
                d0 + count <= size,
                valid_ring_size(size),
                start == old(self).prod(),
                c == old(self).cons(),
                size == old(self).ring_size(),
                self.prod() == start,
                self.cons() == c,
                self.ring_size() == size,
                self.pending() == old(self).pending(),
                old(self).pending().len() == d0,
                wrap_add_u32(c, d0) == start,
                forall|k: int| 0 <= k < i ==> self.slot_at(c + d0 + k) == items@[k],
            decreases count - i,
        {
            let idx = start.wrapping_add(i as u32);
            proof {
                lemma_wrap_add_assoc(c, d0, i as int);
                lemma_wrap_delta_of_add(c, d0 + i);
                assert(idx == wrap_add_u32(c, d0 + i));
            }
            let ghost prev = *self;
            self.write_at(idx, items[i]);
            proof {
                lemma_mod_wrap(c + d0 + i, size);
                assert(self.slot_at(c + d0 + i) == items@[i as int]);
                assert forall|k: int| 0 <= k < i implies self.slot_at(c + d0 + k) == items@[k] by {
                    lemma_mod_wrap(c + d0 + k, size);
                    lemma_offsets_distinct(c, d0 + k, d0 + i, size);
                    assert(self.slot_at(c + d0 + k) == prev.slot_at(c + d0 + k));
                }
            }
            i = i + 1;
        }
        let new_prod = start.wrapping_add(count as u32);
        proof {
            lemma_wrap_add_assoc(c, d0, count as int);
            lemma_wrap_delta_of_add(c, d0 + count);
            assert(new_prod == wrap_add_u32(c, d0 + count));
        }
        let ghost before_submit = *self;
        self.submit(new_prod);
        proof {
            assert forall|k: int| 0 <= k < self.pending().len() implies self.pending()[k] == (old(
                self,
            ).pending() + items@)[k] by {
                if k < d0 {
                    assert(before_submit.pending()[k] == before_submit.slot_at(c + k));
                } else {
                    assert(before_submit.slot_at(c + d0 + (k - d0)) == items@[k - d0]);
                    assert(c + d0 + (k - d0) == c + k);
                }
            }
            assert(self.pending() =~= old(self).pending() + items@);
        }
        true
    }

    /// Back-end side of the protocol: consume the oldest pending entry, as
    /// the kernel does when it takes a frame off FILL or a descriptor off TX.
    pub fn peer_pop(&mut self) -> (r: Option<T>)
        ensures
            final(self).ring_size() == old(self).ring_size(),
            final(self).prod() == old(self).prod(),
            forall|l: int| 0 <= l ==> final(self).slot_at(l) == old(self).slot_at(l),
            r == if old(self).pending().len() > 0 {
                Some(old(self).pending()[0])
            } else {
                None::<T>
            },
            final(self).pending() == if old(self).pending().len() > 0 {
                old(self).pending().skip(1)
            } else {
                old(self).pending()
            },
            old(self).pending().len() > 0 ==> final(self).cons() == wrap_add_u32(
                old(self).cons(),
                1,
            ),
            old(self).pending().len() == 0 ==> *final(self) == *old(self),
    {
        proof {
            use_type_invariant(&*self);
        }
        if self.producer == self.consumer {
            proof {
                assert(old(self).pending().len() == 0);
            }
            return None;
        }
        let n = self.slots.len();
        let off = (self.consumer as usize) % n;
        let item = self.slots[off];
        proof {
            lemma_mod_wrap(self.consumer as int, self.ring_size());
            assert(item == old(self).pending()[0]);
        }
        self.consumer = self.consumer.wrapping_add(1);
        proof {
            let c = old(self).cons();
            let size = old(self).ring_size();
            lemma_mod_wrap(c + 1, size);
            assert forall|k: int| 0 <= k < self.pending().len() implies self.pending()[k] == old(
                self,
            ).pending().skip(1)[k] by {
                lemma_slot_congruent(self.cons() as int, c + 1, k, size);
            }
            assert(self.pending() =~= old(self).pending().skip(1));
        }
        Some(item)
    }
}

impl<T> ConsumerRing<T> {
    /// The index protocol invariant: the ring size is a valid power of two
    /// and at most `size` entries are outstanding.
    #[verifier::type_invariant]
    pub closed spec fn wf(self) -> bool {
        &&& valid_ring_size(self.slots@.len() as int)
        &&& wrap_delta(self.producer, self.consumer) <= self.slots@.len()
    }

    /// Number of slots.
    pub closed spec fn ring_size(self) -> int {
        self.slots@.len() as int
    }

    /// The free-running producer index.
    pub closed spec fn prod(self) -> u32 {
        self.producer
    }

    /// The free-running consumer index.
    pub closed spec fn cons(self) -> u32 {
        self.consumer
    }

    /// The entry stored for logical index `l` (any representative of its
    /// residue class modulo the ring size).
    pub closed spec fn slot_at(self, l: int) -> T {
        self.slots@[l % self.ring_size()]
    }

    /// The published-but-unconsumed entries, oldest first.
    pub open spec fn pending(self) -> Seq<T> {
        Seq::new(
            wrap_delta(self.prod(), self.cons()) as nat,
            |k: int| self.slot_at(self.cons() + k),
        )
    }

    /// The protocol invariant, stated publicly: at every observable instant
    /// `0 <= producer - consumer <= size` under wrapping subtraction. The
    /// bound is a type invariant, so it holds of every ring a caller can
    /// ever have; this no-op makes the fact available at a call site.
    pub fn index_protocol(&self)
        ensures
            0 <= wrap_delta(self.prod(), self.cons()) <= self.ring_size(),
            valid_ring_size(self.ring_size()),
            self.pending().len() == wrap_delta(self.prod(), self.cons()),
    {
        proof {
            use_type_invariant(self);
        }
    }
}

impl<T: Copy> ConsumerRing<T> {
    /// A fresh ring over the given storage, whose length must be a valid
    /// ring size. Both indices start at `start`.
    pub fn with_start(storage: Vec<T>, start: u32) -> (r: Self)
        requires
            valid_ring_size(storage@.len() as int),
        ensures
            r.ring_size() == storage@.len(),
            r.prod() == start,
            r.cons() == start,
            r.pending() == Seq::<T>::empty(),
    {
        let r = ConsumerRing { slots: storage, producer: start, consumer: start };
        proof {
            assert(r.pending() =~= Seq::<T>::empty());
        }
        r
    }

    /// A fresh empty ring with both indices at zero.
    pub fn new(storage: Vec<T>) -> (r: Self)
        requires
            valid_ring_size(storage@.len() as int),
        ensures
            r.ring_size() == storage@.len(),
            r.prod() == 0,
            r.cons() == 0,
            r.pending() == Seq::<T>::empty(),
    {
        Self::with_start(storage, 0)
    }

    /// Ring size in entries.
    pub fn len(&self) -> (r: u32)
        ensures
            r == self.ring_size(),
    {
        proof {
            use_type_invariant(self);
        }
        self.slots.len() as u32
    }

    /// Number of published entries not yet consumed.
    pub fn available(&self) -> (r: usize)
        ensures
            r == self.pending().len(),
    {
        proof {
            use_type_invariant(self);
        }
        self.producer.wrapping_sub(self.consumer) as usize
    }

    /// The current consumer index, where the oldest pending entry sits.
    pub fn consumer_idx(&self) -> (r: u32)
        ensures
            r == self.cons(),
    {
        self.consumer
    }

    /// How many entries a consumer may take: `min(count, producer -
    /// consumer)` under wrapping subtraction. A wrapping delta past `2^31`
    /// would signal desynchronisation and reads as zero; the protocol
    /// invariant keeps the delta within the ring size, so here that guard
    /// can never fire.
    pub fn peek(&mut self, count: u32) -> (r: usize)
        ensures
            *final(self) == *old(self),
            r == if count as int <= old(self).pending().len() {
                count as int
            } else {
                old(self).pending().len() as int
            },
    {
        proof {
            use_type_invariant(&*self);
        }
        let avail = self.producer.wrapping_sub(self.consumer);
        if avail > 0x8000_0000u32 {
            return 0;
        }
        if (count as usize) <= (avail as usize) {
            count as usize
        } else {
            avail as usize
        }
    }

    /// Read the entry at logical index `idx`, which must lie within the
    /// pending range.
    pub fn read_at(&self, idx: u32) -> (r: T)
        requires
            wrap_delta(idx, self.cons()) < self.pending().len(),
        ensures
            r == self.pending()[wrap_delta(idx, self.cons())],
    {
        proof {
            use_type_invariant(self);
        }
        let n = self.slots.len();
        let off = (idx as usize) % n;
        let r = self.slots[off];
        proof {
            let c = self.cons();
            let d = wrap_delta(idx, c);
            lemma_mod_wrap(c + d, self.ring_size());
            assert(idx as int == (c + d) % 0x1_0000_0000);
        }
        r
    }

    /// Copy the first `count` pending entries out, oldest first, without
    /// consuming them.
    pub fn take_prefix(&self, count: usize) -> (r: Vec<T>)
        requires
            count <= self.pending().len(),
        ensures
            r@ == self.pending().take(count as int),
    {
        proof {
            use_type_invariant(self);
        }
        let start = self.consumer_idx();
        let mut r: Vec<T> = Vec::new();
        let mut i: usize = 0;
        while i < count
            invariant
                count <= self.pending().len(),
                start == self.cons(),
                i <= count,
                r@ == self.pending().take(i as int),
            decreases count - i,
        {
            let idx = start.wrapping_add(i as u32);
            proof {
                use_type_invariant(self);
                lemma_wrap_delta_of_add(start, i as int);
                assert(idx == wrap_add_u32(start, i as int));
            }
            r.push(self.read_at(idx));
            i = i + 1;
            proof {
                assert(r@ =~= self.pending().take(i as int));
            }
        }
        r
    }

    /// Hand `count` consumed entries back: the consumer index advances and
    /// the pending entries lose their first `count` elements.
    pub fn release(&mut self, count: u32)
        requires
            count as int <= old(self).pending().len(),
        ensures
            final(self).ring_size() == old(self).ring_size(),
            final(self).prod() == old(self).prod(),
            final(self).cons() == wrap_add_u32(old(self).cons(), count as int),
            forall|l: int| 0 <= l ==> final(self).slot_at(l) == old(self).slot_at(l),
            final(self).pending() == old(self).pending().skip(count as int),
    {
        proof {
            use_type_invariant(&*self);
        }
        self.consumer = self.consumer.wrapping_add(count);
        proof {
            let c = old(self).cons();
            let size = old(self).ring_size();
            lemma_mod_wrap(c + count, size);
            assert forall|k: int| 0 <= k < self.pending().len() implies self.pending()[k] == old(
                self,
            ).pending().skip(count as int)[k] by {
                lemma_slot_congruent(self.cons() as int, c + count, k, size);
            }
            assert(self.pending() =~= old(self).pending().skip(count as int));
        }
    }

    /// Back-end side of the protocol: publish one entry, as the kernel does
    /// when it delivers a descriptor on RX or a completed address on
    /// COMPLETION. Returns false (and changes nothing) when the ring is
    /// full.
    pub fn peer_push(&mut self, item: T) -> (r: bool)
        ensures
            final(self).ring_size() == old(self).ring_size(),
            final(self).cons() == old(self).cons(),
            r == (old(self).pending().len() < old(self).ring_size()),
            r ==> final(self).pending() == old(self).pending().push(item) && final(self).prod()
                == wrap_add_u32(old(self).prod(), 1),
            !r ==> *final(self) == *old(self),
    {
        proof {
            use_type_invariant(&*self);
        }
        let n = self.slots.len() as u32;
        if self.producer.wrapping_sub(self.consumer) >= n {
            return false;
        }
        let off = (self.producer as usize) % self.slots.len();
        self.slots[off] = item;
        proof {
            let c = old(self).cons();
            let size = old(self).ring_size();
            let d = wrap_delta(old(self).prod(), c);
            lemma_mod_wrap(c + d, size);
            assert(old(self).prod() as int == (c + d) % 0x1_0000_0000);
        }
        self.producer = self.producer.wrapping_add(1);
        proof {
            let c = old(self).cons();
            let size = old(self).ring_size();
            let d = wrap_delta(old(self).prod(), c);
            assert forall|k: int| 0 <= k < self.pending().len() implies self.pending()[k] == old(
                self,
            ).pending().push(item)[k] by {
                if k < d {
                    lemma_mod_wrap(c + k, size);
                    lemma_offsets_distinct(c, k, d, size);
                }
            }
            assert(self.pending() =~= old(self).pending().push(item));
        }
        true
    }
}

} // verus!
