//! A single-threaded, interrupt-aware cooperative task executor for driving
//! asynchronous network I/O inside a unikernel.
//!
//! The executor bridges a cooperative scheduler (tasks that voluntarily
//! suspend pending I/O) and a preemptive kernel that can park and wake whole
//! execution contexts and toggle hardware interrupt delivery for a network
//! device. Its obligations: no missed wakeups, bounded per-pass work, correct
//! toggling of polling mode around blocking waits, and a timeout contract for
//! callers that cannot tolerate unbounded blocking.

use vstd::prelude::*;

pub mod driver;
pub mod kernel;
pub mod queue;
pub mod notify;
pub mod sched;
pub mod task;

verus! {

/// A network delay above this many milliseconds makes the blocking driver
/// relinquish the execution context with a real kernel-level block instead of
/// busy-polling. A bare heuristic, kept as a named tunable constant.
pub const PARK_THRESHOLD_MS: u64 = 100;

/// `a + b`, saturating at `u64::MAX`.
pub open spec fn sat_add(a: u64, b: u64) -> u64 {
    if a + b <= u64::MAX {
        (a + b) as u64
    } else {
        u64::MAX
    }
}

/// Executable saturating addition, exact against `sat_add`.
pub fn checked_sat_add(a: u64, b: u64) -> (r: u64)
    ensures
        r == sat_add(a, b),
{
    if a <= u64::MAX - b {
        a + b
    } else {
        u64::MAX
    }
}

} // verus!
