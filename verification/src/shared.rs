//! The free-frame queue shared between the split halves: packets dropped
//! anywhere are ferried back to the receive half, which re-arms their
//! frames on FILL.

use crossbeam_queue::SegQueue;
use vstd::prelude::*;

verus! {

#[verifier::external_type_specification]
#[verifier::external_body]
#[verifier::reject_recursive_types(T)]
pub struct ExSegQueue<T>(SegQueue<T>);

/// Relies on `crossbeam_queue::SegQueue::new`: a fresh unbounded queue.
/// The queue is shared and lock-free; other handles mutate it through
/// shared references, so no contract here speaks of its contents.
#[verifier::external_body]
fn seg_queue_new() -> SegQueue<u64> {
    SegQueue::new()
}

/// Relies on `crossbeam_queue::SegQueue::push`: appends the value at the
/// tail. Concurrent holders interleave freely, so nothing can be promised
/// of the shared contents afterwards.
#[verifier::external_body]
fn seg_queue_push(q: &SegQueue<u64>, addr: u64) {
    q.push(addr)
}

/// Relies on `crossbeam_queue::SegQueue::pop`: takes the value at the
/// head, if any — first-in first-out among the values still inside.
/// Which value (or whether `None`) depends on what other holders did, so
/// nothing more is promised of the result.
#[verifier::external_body]
fn seg_queue_pop(q: &SegQueue<u64>) -> Option<u64> {
    q.pop()
}

/// The state shared between the receive half and everyone holding frames:
/// a lock-free multi-producer queue of frame addresses that have been
/// given up and await re-arming on FILL.
pub struct SharedFrameState {
    free_frames: SegQueue<u64>,
}

impl SharedFrameState {
    pub fn new() -> SharedFrameState {
        SharedFrameState { free_frames: seg_queue_new() }
    }

    /// Hand a frame address back for re-arming. Callable from any thread
    /// holding a reference.
    pub fn recycle(&self, frame_addr: u64) {
        seg_queue_push(&self.free_frames, frame_addr);
    }

    /// Take one queued address, if any thread left one.
    pub fn take(&self) -> Option<u64> {
        seg_queue_pop(&self.free_frames)
    }
}

} // verus!
