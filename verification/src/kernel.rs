//! The kernel boundary consumed by the executor core: current-task identity,
//! yield, wake-by-id, set-polling-mode, block-with-timeout, a clock, and the
//! network delay oracle.
//!
//! The core does not implement these primitives; it only decides when to call
//! them. This module models the boundary as an explicitly constructed value
//! with a simulated clock and a recorded history of the calls the core makes,
//! so that every decision of the core is stated and checked against it. The
//! clock advances by a fixed tick on every read, standing for the real time
//! that elapses between two observations, and a blocking call advances it by
//! the full timeout (a park that no wake cuts short).

use vstd::prelude::*;
use crate::sat_add;

verus! {

/// The delay the driver acts on when the oracle reports `d`: an idle stack
/// ("none") is treated as zero delay, to keep polling aggressively.
pub open spec fn effective_delay(d: Option<u64>) -> u64 {
    match d {
        None => 0u64,
        Some(x) => x,
    }
}

/// The kernel boundary: simulated clock, polling-mode flag, the delay the
/// network stack currently reports, and a record of every primitive call.
pub struct Kernel {
    /// The simulated clock, in milliseconds.
    pub time: u64,
    /// How far the clock advances on each read.
    pub tick: u64,
    /// Whether the network device is self-polled (true) or interrupt-driven
    /// (false). Mutated only through `set_network_polling_mode`.
    pub polling: bool,
    /// What the network stack reports as the minimum wait until its next
    /// scheduled event; `None` when nothing is scheduled.
    pub oracle_delay: Option<u64>,
    /// Identity of the execution context driving this kernel.
    pub tid: u64,
    /// How many times the wake-by-id primitive has been invoked.
    pub wake_count: u64,
    /// Every timeout handed to the block-with-timeout primitive, in order.
    pub block_log: Vec<u64>,
    /// How many times the core yielded the execution context.
    pub yield_count: u64,
}

impl Kernel {
    /// A fresh kernel boundary: clock at zero, interrupt-driven delivery,
    /// no primitive calls recorded yet.
    pub fn new(tid: u64, tick: u64, oracle_delay: Option<u64>) -> (k: Kernel)
        ensures
            k.time == 0,
            k.tick == tick,
            !k.polling,
            k.oracle_delay == oracle_delay,
            k.tid == tid,
            k.wake_count == 0,
            k.block_log@ == Seq::<u64>::empty(),
            k.yield_count == 0,
    {
        Kernel {
            time: 0,
            tick: tick,
            polling: false,
            oracle_delay: oracle_delay,
            tid: tid,
            wake_count: 0,
            block_log: Vec::new(),
            yield_count: 0,
        }
    }

    /// Stable identifier for the calling execution context.
    pub fn current_tid(&self) -> (t: u64)
        ensures
            t == self.tid,
    {
        self.tid
    }

    /// Reads the clock. Real time passes between two reads, so the clock
    /// advances by one tick per read, saturating at the largest instant.
    pub fn now(&mut self) -> (t: u64)
        ensures
            t == old(self).time,
            final(self).time == sat_add(old(self).time, old(self).tick),
            final(self).tick == old(self).tick,
            final(self).polling == old(self).polling,
            final(self).oracle_delay == old(self).oracle_delay,
            final(self).tid == old(self).tid,
            final(self).wake_count == old(self).wake_count,
            final(self).block_log@ == old(self).block_log@,
            final(self).yield_count == old(self).yield_count,
    {
        let t = self.time;
        self.time = crate::checked_sat_add(self.time, self.tick);
        t
    }

    /// Idempotent best-effort nudge of another execution context; safe to
    /// call from any context. Recorded as one invocation of the primitive.
    pub fn wakeup_task(&mut self, _tid: u64)
        ensures
            final(self).wake_count == sat_add(old(self).wake_count, 1),
            final(self).time == old(self).time,
            final(self).tick == old(self).tick,
            final(self).polling == old(self).polling,
            final(self).oracle_delay == old(self).oracle_delay,
            final(self).tid == old(self).tid,
            final(self).block_log@ == old(self).block_log@,
            final(self).yield_count == old(self).yield_count,
    {
        self.wake_count = crate::checked_sat_add(self.wake_count, 1);
    }

    /// Toggles whether the network device delivers via interrupt or is
    /// self-polled.
    pub fn set_network_polling_mode(&mut self, value: bool)
        ensures
            final(self).polling == value,
            final(self).time == old(self).time,
            final(self).tick == old(self).tick,
            final(self).oracle_delay == old(self).oracle_delay,
            final(self).tid == old(self).tid,
            final(self).wake_count == old(self).wake_count,
            final(self).block_log@ == old(self).block_log@,
            final(self).yield_count == old(self).yield_count,
    {
        self.polling = value;
    }

    /// The network delay oracle: minimum wait until the next scheduled
    /// network event, or `None` when the stack is idle. Read-only, a function
    /// of "now". The driver services the network by polling while it runs, so
    /// the oracle is only ever consulted in polling mode.
    pub fn network_delay(&self, _now: u64) -> (d: Option<u64>)
        requires
            self.polling,
        ensures
            d == self.oracle_delay,
    {
        self.oracle_delay
    }

    /// Parks the calling context until woken or until the timeout elapses.
    /// No wake cuts the simulated park short, so the clock advances by the
    /// full timeout. Only reached from polling mode: the driver commits to
    /// the block before it re-enables interrupt-driven delivery.
    pub fn block_current_task_with_timeout(&mut self, timeout: u64)
        requires
            old(self).polling,
        ensures
            final(self).block_log@ == old(self).block_log@.push(timeout),
            final(self).time == sat_add(old(self).time, timeout),
            final(self).tick == old(self).tick,
            final(self).polling == old(self).polling,
            final(self).oracle_delay == old(self).oracle_delay,
            final(self).tid == old(self).tid,
            final(self).wake_count == old(self).wake_count,
            final(self).yield_count == old(self).yield_count,
    {
        self.block_log.push(timeout);
        self.time = crate::checked_sat_add(self.time, timeout);
    }

    /// Cooperative relinquish; returns when rescheduled. Only reached while
    /// genuinely parked, that is, while interrupt-driven delivery is allowed.
    pub fn yield_now(&mut self)
        requires
            !old(self).polling,
        ensures
            final(self).yield_count == sat_add(old(self).yield_count, 1),
            final(self).time == old(self).time,
            final(self).tick == old(self).tick,
            final(self).polling == old(self).polling,
            final(self).oracle_delay == old(self).oracle_delay,
            final(self).tid == old(self).tid,
            final(self).wake_count == old(self).wake_count,
            final(self).block_log@ == old(self).block_log@,
    {
        self.yield_count = crate::checked_sat_add(self.yield_count, 1);
    }
}

} // verus!
