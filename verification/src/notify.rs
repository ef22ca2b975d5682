//! The wake coalescer: converts repeated wake signals into at most one
//! kernel wakeup between two consecutive resets of its pending-wake flag.
//!
//! One instance is bound to one blocking call and to the identity of the
//! execution context that makes it. Wake signals may originate anywhere (an
//! interrupt handler, another task's completion); the flag ensures a wakeup
//! is not forgotten before the next park, and that a burst of signals nudges
//! the kernel only once.

use vstd::prelude::*;
use crate::kernel::Kernel;
use crate::sat_add;

verus! {

/// Per-blocking-call wake coalescer, bound to one execution context.
pub struct ThreadNotify {
    /// The execution context to nudge: the (single) executor thread.
    pub thread: u64,
    /// Pending-wake flag: a wakeup arrived and has not been consumed by a
    /// reset yet.
    pub unparked: bool,
}

/// How many kernel wakeups a run of `n` wake signals causes, starting from a
/// coalescer whose pending-wake flag is `unparked`: the first signal on a
/// clear flag fires, every later one finds the flag set and is coalesced.
pub open spec fn fires_during(n: nat, unparked: bool) -> nat
    decreases n,
{
    if n == 0 {
        0
    } else {
        (if !unparked { 1nat } else { 0nat }) + fires_during((n - 1) as nat, true)
    }
}

/// One wake signal is one step of the law: it fires exactly when the flag
/// was clear — the same effect `wake_by_ref` states of the kernel's wake
/// count.
pub proof fn lemma_fires_single(unparked: bool)
    ensures
        fires_during(1, unparked) == if unparked {
            0nat
        } else {
            1nat
        },
{
    reveal_with_fuel(fires_during, 2);
}

/// Once the pending-wake flag is set, no further signal fires.
pub proof fn lemma_fires_none_once_set(n: nat)
    ensures
        fires_during(n, true) == 0,
    decreases n,
{
    if n > 0 {
        lemma_fires_none_once_set((n - 1) as nat);
    }
}

/// Coalescing law: any run of `n >= 1` wake signals between two resets of the
/// flag — that is, starting with the flag clear — invokes the low-level wake
/// primitive exactly once.
pub proof fn lemma_wake_coalesced(n: nat)
    requires
        n >= 1,
    ensures
        fires_during(n, false) == 1,
{
    lemma_fires_none_once_set((n - 1) as nat);
}

impl ThreadNotify {
    /// A fresh coalescer for one blocking call, bound to `thread`, with no
    /// wake pending.
    pub fn new(thread: u64) -> (s: ThreadNotify)
        ensures
            s.thread == thread,
            !s.unparked,
    {
        ThreadNotify { thread: thread, unparked: false }
    }

    /// Signals a wakeup: test-and-set the pending-wake flag, and nudge the
    /// kernel only if the flag was clear — the single step of the coalescing
    /// law `fires_during`.
    pub fn wake_by_ref(&mut self, kernel: &mut Kernel)
        ensures
            final(self).thread == old(self).thread,
            final(self).unparked,
            final(kernel).wake_count == sat_add(
                old(kernel).wake_count,
                if old(self).unparked { 0u64 } else { 1u64 },
            ),
            final(kernel).time == old(kernel).time,
            final(kernel).tick == old(kernel).tick,
            final(kernel).polling == old(kernel).polling,
            final(kernel).oracle_delay == old(kernel).oracle_delay,
            final(kernel).tid == old(kernel).tid,
            final(kernel).block_log@ == old(kernel).block_log@,
            final(kernel).yield_count == old(kernel).yield_count,
    {
        let was = self.unparked;
        self.unparked = true;
        if !was {
            kernel.wakeup_task(self.thread);
        }
    }

    /// Signals a wakeup, consuming nothing: same effect as `wake_by_ref`.
    pub fn wake(&mut self, kernel: &mut Kernel)
        ensures
            final(self).thread == old(self).thread,
            final(self).unparked,
            final(kernel).wake_count == sat_add(
                old(kernel).wake_count,
                if old(self).unparked { 0u64 } else { 1u64 },
            ),
            final(kernel).time == old(kernel).time,
            final(kernel).tick == old(kernel).tick,
            final(kernel).polling == old(kernel).polling,
            final(kernel).oracle_delay == old(kernel).oracle_delay,
            final(kernel).tid == old(kernel).tid,
            final(kernel).block_log@ == old(kernel).block_log@,
            final(kernel).yield_count == old(kernel).yield_count,
    {
        self.wake_by_ref(kernel);
    }

    /// Clears the pending-wake flag and reports its prior value. The blocking
    /// driver calls this immediately before committing to a real kernel-level
    /// block: a true result means a wake raced with the decision to sleep,
    /// and the park must be skipped.
    pub fn reset(&mut self) -> (was: bool)
        ensures
            final(self).thread == old(self).thread,
            !final(self).unparked,
            was == old(self).unparked,
    {
        let was = self.unparked;
        self.unparked = false;
        was
    }
}

} // verus!
