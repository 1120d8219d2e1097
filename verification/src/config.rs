use vstd::prelude::*;

verus! {

/// How long an adaptive poller keeps yielding after its last non-empty
/// batch before it starts sleeping, in microseconds.
pub const SPIN_THRESHOLD_MICROS: u64 = 50;

/// How long the `Wait` and `Adaptive` pollers sleep between empty batches,
/// in milliseconds.
pub const IDLE_SLEEP_MILLIS: u64 = 1;

/// Strategy for driving the batch cycle when no packets arrive.
#[derive(Debug, Clone, Copy, PartialEq, Eq, Structural)]
pub enum Poller {
    /// Re-enter immediately. Lowest latency, burns a full core.
    Busy,
    /// Sleep after every empty cycle. Saves power, adds latency.
    Wait,
    /// Yield for a short spin window after the last packet, then sleep.
    Adaptive,
}

/// What a producer does when a ring is full.
#[derive(Debug, Clone, Copy, PartialEq, Eq, Structural)]
pub enum CongestionStrategy {
    /// Give up on the new entry at once.
    DropNew,
    /// Wait until space appears.
    Block,
}

/// What the driving loop should do after one batch cycle.
#[derive(Debug, Clone, Copy, PartialEq, Eq, Structural)]
pub enum PollStep {
    /// Run the next cycle at once.
    Continue,
    /// Yield the processor, then run the next cycle.
    YieldNow,
    /// Sleep for `IDLE_SLEEP_MILLIS`, then run the next cycle.
    Sleep,
}

/// The polling decision after a cycle that consumed `processed` packets,
/// `empty_for_micros` microseconds after the last non-empty cycle. The
/// caller performs the yield or sleep; this fixes the choice:
/// `Busy` never pauses; `Wait` sleeps on every empty cycle; `Adaptive`
/// yields within the spin window and sleeps beyond it.
pub fn poll_step(poller: Poller, processed: usize, empty_for_micros: u64) -> (r: PollStep)
    ensures
        r == match poller {
            Poller::Busy => PollStep::Continue,
            Poller::Wait => if processed == 0 {
                PollStep::Sleep
            } else {
                PollStep::Continue
            },
            Poller::Adaptive => if processed > 0 {
                PollStep::Continue
            } else if empty_for_micros <= SPIN_THRESHOLD_MICROS {
                PollStep::YieldNow
            } else {
                PollStep::Sleep
            },
        },
{
    match poller {
        Poller::Busy => PollStep::Continue,
        Poller::Wait => {
            if processed == 0 {
                PollStep::Sleep
            } else {
                PollStep::Continue
            }
        },
        Poller::Adaptive => {
            if processed > 0 {
                PollStep::Continue
            } else if empty_for_micros <= SPIN_THRESHOLD_MICROS {
                PollStep::YieldNow
            } else {
                PollStep::Sleep
            }
        },
    }
}

} // verus!
