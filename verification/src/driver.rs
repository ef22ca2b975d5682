//! The blocking driver: the top-level loop that advances background tasks,
//! polls a caller's future until completion or timeout, and decides when to
//! truly relinquish the execution context to the kernel versus busy-poll.
//!
//! Polling mode is true throughout every interval in which the driver itself
//! may be running network-servicing logic — the kernel boundary demands it
//! before the oracle is consulted or a block is committed — and false only
//! while the driver is genuinely parked, and after it returns. The timeout is
//! checked strictly before committing to any real sleep, and a wake that
//! races with the decision to sleep is caught by the coalescer's reset and
//! skips the park.

use vstd::prelude::*;
use crate::kernel::Kernel;
use crate::kernel::effective_delay;
use crate::notify::ThreadNotify;
use crate::sched::Scheduler;
use crate::task::Task;
use crate::task::TaskHandle;
use crate::task::completes_unaided;
use crate::task::ready_now;
use crate::task::run_step;
use crate::task::advanced;
use crate::task::lemma_advanced_refl;
use crate::task::lemma_advanced_step;
use crate::sat_add;
use crate::checked_sat_add;
use crate::PARK_THRESHOLD_MS;

verus! {

/// The inputs on which `block_on` owes success outright: the task completes
/// unaided in `remaining + 1` passes, the oracle's delay is at or below the
/// park threshold (so no park ever stretches an iteration), and — when a
/// timeout is supplied — the clock cost of those passes, two ticks each after
/// the initial read, lands strictly inside the window without overflowing.
pub open spec fn completes_within_window(t0: Task, k0: Kernel, timeout: Option<u64>) -> bool {
    &&& completes_unaided(t0)
    &&& effective_delay(k0.oracle_delay) <= PARK_THRESHOLD_MS
    &&& (timeout is Some ==> k0.time + timeout.unwrap() <= u64::MAX && (2 * t0.remaining + 1)
        * k0.tick < timeout.unwrap())
}

/// Blocks the current execution context on the task `fut` names, running the
/// executor when idling, until the task completes or `timeout` milliseconds
/// (measured on the kernel's clock from entry) have elapsed.
///
/// Success is the task's output, and is owed whenever the task completes
/// unaided strictly inside the supplied window with no park in the way
/// (`completes_within_window`), and always when no timeout is supplied. A
/// timeout is reported as a distinct result and can only occur when a timeout
/// was supplied; without a park it is reported within one iteration's clock
/// reads of the deadline. A real park (delay above `PARK_THRESHOLD_MS` with
/// no pending wake) hands the oracle's delay to block-with-timeout and may
/// overshoot the deadline.
///
/// A timeout does not cancel background tasks: every task's final state is
/// its initial state advanced by run steps, a dormant task is left exactly as
/// it was, and the driver itself never invokes the wake primitive — reviving
/// a dormant task is a waker's business, not the driver's.
///
/// With a timeout supplied, the clock must really advance between reads
/// (a positive tick), so the deadline is eventually observed. With no
/// timeout, the caller must hand a future that repeated passes alone drive
/// to completion: nothing else would ever end the call.
pub fn block_on(
    sched: &mut Scheduler,
    kernel: &mut Kernel,
    notify: &mut ThreadNotify,
    fut: TaskHandle,
    timeout: Option<u64>,
) -> (r: Result<u64, ()>)
    requires
        old(sched).wf(),
        fut.id < old(sched).tasks@.len(),
        timeout is Some ==> old(kernel).tick >= 1,
        timeout is None ==> completes_unaided(old(sched).tasks@[fut.id as int]),
    ensures
        final(sched).wf(),
        final(sched).tasks@.len() == old(sched).tasks@.len(),
        // the driver only runs passes: every task's final state is its
        // initial state advanced by some number of run steps
        forall|id: usize|
            id < old(sched).tasks@.len() ==> advanced(
                old(sched).tasks@[id as int],
                #[trigger] final(sched).tasks@[id as int],
            ),
        // so scripts and outputs are untouched and completion is stable
        forall|id: usize|
            id < old(sched).tasks@.len() ==> (#[trigger] final(sched).tasks@[id as int]).output
                == old(sched).tasks@[id as int].output
                && final(sched).tasks@[id as int].wake_on_pending == old(sched).tasks@[id as int].wake_on_pending && (old(sched).tasks@[id as int].done ==> final(sched).tasks@[id as int].done),
        // background tasks are not cancelled: a dormant task is left exactly
        // as it was, and the driver itself never invokes the wake primitive
        forall|id: usize|
            id < old(sched).tasks@.len() && !old(sched).tasks@[id as int].scheduled ==> final(sched).tasks@[id as int] == old(sched).tasks@[id as int],
        // a task that requests no wakeups goes dormant after one run: it
        // advances at most one step
        forall|id: usize|
            id < old(sched).tasks@.len() && !old(sched).tasks@[id as int].wake_on_pending ==> (
            #[trigger] final(sched).tasks@[id as int]) == old(sched).tasks@[id as int] || final(sched).tasks@[id as int] == run_step(old(sched).tasks@[id as int]),
        final(kernel).wake_count == old(kernel).wake_count,
        // the coalescer's flag is only ever consumed here, never raised
        final(notify).unparked ==> old(notify).unparked,
        final(notify).thread == old(notify).thread,
        // interrupt-driven delivery is re-enabled on every exit
        !final(kernel).polling,
        final(kernel).tick == old(kernel).tick,
        final(kernel).oracle_delay == old(kernel).oracle_delay,
        final(kernel).tid == old(kernel).tid,
        // the block log grows only by real parks, each of the oracle's delay,
        // and only a park yields the execution context
        old(kernel).block_log@.len() <= final(kernel).block_log@.len(),
        final(kernel).block_log@.take(old(kernel).block_log@.len() as int) == old(kernel).block_log@,
        forall|j: int|
            old(kernel).block_log@.len() <= j < final(kernel).block_log@.len() ==> final(kernel).block_log@[j] == effective_delay(old(kernel).oracle_delay),
        old(kernel).yield_count <= final(kernel).yield_count,
        final(kernel).block_log@ == old(kernel).block_log@ ==> final(kernel).yield_count == old(kernel).yield_count,
        // a small or absent delay never parks
        effective_delay(old(kernel).oracle_delay) <= PARK_THRESHOLD_MS ==> final(kernel).block_log@ == old(kernel).block_log@,
        // success is owed: on a first-pass completion, whenever no timeout
        // was supplied, and whenever the task completes unaided strictly
        // inside the window with no park in the way
        ready_now(old(sched).tasks@[fut.id as int]) ==> r is Ok,
        timeout is None ==> r is Ok,
        completes_within_window(old(sched).tasks@[fut.id as int], *old(kernel), timeout)
            ==> r is Ok,
        // a dormant future is never woken by the driver itself: nothing can
        // complete it, so only the timeout ends the call
        (!old(sched).tasks@[fut.id as int].done && !old(sched).tasks@[fut.id as int].scheduled)
            ==> r is Err,
        // success delivers the completed task's output; timeout is reported
        // only when one was supplied, only with the task incomplete, and only
        // once the clock has left the supplied window
        match r {
            Ok(v) => final(sched).tasks@[fut.id as int].done && v == final(sched).tasks@[fut.id as int].output,
            Err(e) => timeout is Some && !final(sched).tasks@[fut.id as int].done && final(kernel).time >= sat_add(old(kernel).time, timeout.unwrap()),
        },
        // without a park, either outcome lands within the timeout window, up
        // to the clock reads of the final iteration
        (r is Ok && timeout is Some && final(kernel).block_log@ == old(kernel).block_log@ && old(kernel).time + timeout.unwrap() + 2 * old(kernel).tick <= u64::MAX) ==> final(kernel).time <= old(kernel).time + timeout.unwrap() + 2 * old(kernel).tick,
        (r is Err && timeout is Some && final(kernel).block_log@ == old(kernel).block_log@ && old(kernel).time + timeout.unwrap() + 3 * old(kernel).tick <= u64::MAX) ==> final(kernel).time <= old(kernel).time + timeout.unwrap() + 3 * old(kernel).tick,
        // a delay above the threshold with no wake pending really blocks: a
        // timeout window that outlives the first iteration leaves a grown log
        (r is Err && effective_delay(old(kernel).oracle_delay) > PARK_THRESHOLD_MS && !old(notify).unparked && timeout is Some && timeout.unwrap() > old(kernel).tick && old(kernel).time
            + timeout.unwrap() <= u64::MAX) ==> final(kernel).block_log@.len() > old(kernel).block_log@.len(),
{
    let ghost t_first = old(sched).tasks@[fut.id as int];
    // Polling mode: no NIC interrupts while the driver services the network
    kernel.set_network_polling_mode(true);
    let start = kernel.now();
    let ghost mut first: bool = true;
    proof {
        assert(kernel.block_log@.take(old(kernel).block_log@.len() as int) =~= old(kernel).block_log@);
        assert forall|id: usize| id < sched.tasks@.len() implies advanced(
            old(sched).tasks@[id as int],
            #[trigger] sched.tasks@[id as int],
        ) by {
            lemma_advanced_refl(old(sched).tasks@[id as int]);
            assert(sched.tasks@[id as int] == old(sched).tasks@[id as int]);
        }
        if completes_within_window(t_first, *old(kernel), timeout) && timeout is Some {
            let tk = old(kernel).tick;
            let rem0 = t_first.remaining;
            let d = timeout.unwrap();
            assert(1 * tk < d) by (nonlinear_arith)
                requires
                    (2 * rem0 + 1) * tk < d,
                    tk >= 0,
                    rem0 >= 0,
            ;
            assert(kernel.time == old(kernel).time + (1 + 2 * 0) * old(kernel).tick);
        }
    }
    loop
        invariant
            t_first == old(sched).tasks@[fut.id as int],
            sched.wf(),
            fut.id < sched.tasks@.len(),
            sched.tasks@.len() == old(sched).tasks@.len(),
            forall|id: usize|
                id < old(sched).tasks@.len() ==> advanced(
                    old(sched).tasks@[id as int],
                    #[trigger] sched.tasks@[id as int],
                ),
            forall|id: usize|
                id < old(sched).tasks@.len() ==> (#[trigger] sched.tasks@[id as int]).output == old(sched).tasks@[id as int].output && sched.tasks@[id as int].wake_on_pending == old(sched).tasks@[id as int].wake_on_pending && (old(sched).tasks@[id as int].done
                    ==> sched.tasks@[id as int].done),
            forall|id: usize|
                id < old(sched).tasks@.len() && !old(sched).tasks@[id as int].scheduled
                    ==> sched.tasks@[id as int] == old(sched).tasks@[id as int],
            forall|id: usize|
                id < old(sched).tasks@.len() && !old(sched).tasks@[id as int].wake_on_pending ==> (
                #[trigger] sched.tasks@[id as int]) == old(sched).tasks@[id as int]
                    || sched.tasks@[id as int] == run_step(old(sched).tasks@[id as int]),
            kernel.polling,
            kernel.tick == old(kernel).tick,
            kernel.oracle_delay == old(kernel).oracle_delay,
            kernel.tid == old(kernel).tid,
            kernel.wake_count == old(kernel).wake_count,
            notify.thread == old(notify).thread,
            notify.unparked ==> old(notify).unparked,
            start == old(kernel).time,
            old(kernel).block_log@.len() <= kernel.block_log@.len(),
            kernel.block_log@.take(old(kernel).block_log@.len() as int) == old(kernel).block_log@,
            forall|j: int|
                old(kernel).block_log@.len() <= j < kernel.block_log@.len()
                    ==> kernel.block_log@[j] == effective_delay(old(kernel).oracle_delay),
            old(kernel).yield_count <= kernel.yield_count,
            kernel.block_log@ == old(kernel).block_log@ ==> kernel.yield_count == old(kernel).yield_count,
            effective_delay(old(kernel).oracle_delay) <= PARK_THRESHOLD_MS ==> kernel.block_log@
                == old(kernel).block_log@,
            (timeout is Some && kernel.block_log@ == old(kernel).block_log@ && old(kernel).time
                + timeout.unwrap() + 2 * old(kernel).tick <= u64::MAX) ==> kernel.time <= old(kernel).time + timeout.unwrap() + 2 * old(kernel).tick,
            timeout is Some ==> kernel.tick >= 1,
            timeout is None ==> completes_unaided(sched.tasks@[fut.id as int]),
            ready_now(t_first) ==> ready_now(sched.tasks@[fut.id as int]),
            (!t_first.done && !t_first.scheduled) ==> (!sched.tasks@[fut.id as int].done
                && !sched.tasks@[fut.id as int].scheduled),
            first ==> kernel.time == sat_add(old(kernel).time, old(kernel).tick)
                && kernel.block_log@ == old(kernel).block_log@,
            (!first && !old(notify).unparked && effective_delay(old(kernel).oracle_delay)
                > PARK_THRESHOLD_MS) ==> kernel.block_log@.len() > old(kernel).block_log@.len(),
            (completes_within_window(t_first, *old(kernel), timeout) && timeout is Some
                && !sched.tasks@[fut.id as int].done) ==> completes_unaided(
                sched.tasks@[fut.id as int],
            ) && sched.tasks@[fut.id as int].remaining <= t_first.remaining && kernel.time == old(kernel).time + (1 + 2 * (t_first.remaining - sched.tasks@[fut.id as int].remaining)) * old(kernel).tick,
        decreases (if timeout is Some {
            if sat_add(start, timeout.unwrap()) > kernel.time {
                sat_add(start, timeout.unwrap()) - kernel.time
            } else {
                0int
            }
        } else {
            if sched.tasks@[fut.id as int].done {
                0int
            } else {
                sched.tasks@[fut.id as int].remaining + 1
            }
        }),
    {
        let ghost pre = *sched;
        proof {
            assert forall|id: usize| id < old(sched).tasks@.len() implies advanced(
                old(sched).tasks@[id as int],
                #[trigger] pre.tasks@[id as int],
            ) by {
                assert(pre.tasks@[id as int] == sched.tasks@[id as int]);
            }
        }
        // run background tasks
        sched.run_executor();
        proof {
            // per-task effect of the pass: queued tasks advance one run step,
            // everything else is untouched
            assert forall|id: usize| id < pre.tasks@.len() implies (
            #[trigger] sched.tasks@[id as int]).output == pre.tasks@[id as int].output
                && sched.tasks@[id as int].wake_on_pending == pre.tasks@[id as int].wake_on_pending
                && (pre.tasks@[id as int].done ==> sched.tasks@[id as int].done) && (
            !pre.tasks@[id as int].scheduled ==> sched.tasks@[id as int] == pre.tasks@[id as int])
                by {
                if pre.queue@.contains(id) {
                    let w = choose|w: int| 0 <= w < pre.queue@.len() && pre.queue@[w] == id;
                    assert(sched.tasks@[pre.queue@[w] as int] == run_step(
                        pre.tasks@[pre.queue@[w] as int],
                    ));
                    assert(sched.tasks@[id as int] == run_step(pre.tasks@[id as int]));
                }
            }
            // a task without wakeup requests is stepped at most once: once
            // stepped it is dormant and never queued again
            assert forall|id: usize|
                id < old(sched).tasks@.len() && !old(sched).tasks@[id as int].wake_on_pending
                    implies (#[trigger] sched.tasks@[id as int]) == old(sched).tasks@[id as int]
                    || sched.tasks@[id as int] == run_step(old(sched).tasks@[id as int]) by {
                if pre.queue@.contains(id) {
                    let w = choose|w: int| 0 <= w < pre.queue@.len() && pre.queue@[w] == id;
                    assert(sched.tasks@[pre.queue@[w] as int] == run_step(
                        pre.tasks@[pre.queue@[w] as int],
                    ));
                    assert(sched.tasks@[id as int] == run_step(pre.tasks@[id as int]));
                    assert(pre.tasks@[id as int].scheduled);
                    assert(pre.tasks@[id as int] == old(sched).tasks@[id as int]);
                } else {
                    assert(sched.tasks@[id as int] == pre.tasks@[id as int]);
                }
            }
            // chain the run counts back to the state at entry
            assert forall|id: usize| id < old(sched).tasks@.len() implies advanced(
                old(sched).tasks@[id as int],
                #[trigger] sched.tasks@[id as int],
            ) by {
                assert(advanced(old(sched).tasks@[id as int], pre.tasks@[id as int]));
                if pre.queue@.contains(id) {
                    let w = choose|w: int| 0 <= w < pre.queue@.len() && pre.queue@[w] == id;
                    assert(sched.tasks@[pre.queue@[w] as int] == run_step(
                        pre.tasks@[pre.queue@[w] as int],
                    ));
                    assert(sched.tasks@[id as int] == run_step(pre.tasks@[id as int]));
                    lemma_advanced_step(old(sched).tasks@[id as int], pre.tasks@[id as int]);
                } else {
                    assert(sched.tasks@[id as int] == pre.tasks@[id as int]);
                }
            }
            // the effect of this pass on the driven task itself
            if !pre.tasks@[fut.id as int].done && pre.tasks@[fut.id as int].scheduled {
                let w = choose|w: int| 0 <= w < pre.queue@.len() && pre.queue@[w] == fut.id;
                assert(sched.tasks@[pre.queue@[w] as int] == run_step(
                    pre.tasks@[pre.queue@[w] as int],
                ));
                assert(sched.tasks@[fut.id as int] == run_step(pre.tasks@[fut.id as int]));
            } else {
                if pre.queue@.contains(fut.id) {
                    let w = choose|w: int| 0 <= w < pre.queue@.len() && pre.queue@[w] == fut.id;
                    assert(!pre.tasks@[pre.queue@[w] as int].done);
                }
                assert(sched.tasks@[fut.id as int] == pre.tasks@[fut.id as int]);
            }
        }

        // polling mode holds at every poll of the future
        assert(kernel.polling);
        if let Some(v) = sched.poll_handle(fut) {
            // allow interrupts: the NIC thread may run again
            kernel.set_network_polling_mode(false);
            return Ok(v);
        }

        if let Some(duration) = timeout {
            proof {
                // inside the window, the deadline is still strictly ahead:
                // the clock still shows the schedule of the iteration's start
                if completes_within_window(t_first, *old(kernel), timeout) {
                    assert(!pre.tasks@[fut.id as int].done);
                    let delh = t_first.remaining - pre.tasks@[fut.id as int].remaining;
                    let tk = old(kernel).tick;
                    let rem0 = t_first.remaining;
                    assert((1 + 2 * delh) * tk < duration) by (nonlinear_arith)
                        requires
                            0 <= delh <= rem0,
                            (2 * rem0 + 1) * tk < duration,
                            tk >= 0,
                    ;
                    assert(kernel.time == old(kernel).time + (1 + 2 * delh) * tk);
                    assert(kernel.time < sat_add(start, duration));
                }
            }
            let t = kernel.now();
            if t >= checked_sat_add(start, duration) {
                proof {
                    // a first-iteration timeout needs the window to be at
                    // most one tick: a longer window reaches a park decision
                    if first && duration > old(kernel).tick && old(kernel).time + duration
                        <= u64::MAX {
                        assert(t == sat_add(start, old(kernel).tick));
                        assert(t < sat_add(start, duration));
                    }
                    // a first-pass completion was observed by the poll above
                    if ready_now(t_first) {
                        assert(ready_now(pre.tasks@[fut.id as int]));
                        assert(sched.tasks@[fut.id as int].done);
                    }
                }
                // allow interrupts: the NIC thread may run again
                kernel.set_network_polling_mode(false);
                return Err(());
            }
        }

        // polling mode holds at every consultation of the oracle: the
        // boundary itself demands it
        assert(kernel.polling);
        let now = kernel.now();
        let delay = match kernel.network_delay(now) {
            Some(d) => d,
            None => 0,
        };
        if delay > PARK_THRESHOLD_MS {
            let unparked = notify.reset();
            if !unparked {
                let ghost pre_log = kernel.block_log@;
                kernel.block_current_task_with_timeout(delay);
                // allow interrupts while genuinely parked
                kernel.set_network_polling_mode(false);
                // switch to another task
                kernel.yield_now();
                // back to polling mode before servicing the network again
                kernel.set_network_polling_mode(true);
                proof {
                    assert(kernel.block_log@.take(old(kernel).block_log@.len() as int)
                        =~= pre_log.take(old(kernel).block_log@.len() as int));
                }
            }
        }
        proof {
            first = false;
            // restore the in-window clock schedule: a continuing iteration
            // costs exactly two ticks and stays strictly inside the window
            if completes_within_window(t_first, *old(kernel), timeout) && timeout is Some
                && !sched.tasks@[fut.id as int].done {
                assert(!pre.tasks@[fut.id as int].done);
                assert(pre.tasks@[fut.id as int].scheduled);
                assert(sched.tasks@[fut.id as int] == run_step(pre.tasks@[fut.id as int]));
                assert(pre.tasks@[fut.id as int].remaining >= 1);
                let del = t_first.remaining - sched.tasks@[fut.id as int].remaining;
                let delh = t_first.remaining - pre.tasks@[fut.id as int].remaining;
                let tk = old(kernel).tick;
                let rem0 = t_first.remaining;
                let d = timeout.unwrap();
                assert((1 + 2 * del) * tk < d) by (nonlinear_arith)
                    requires
                        0 < del <= rem0,
                        (2 * rem0 + 1) * tk < d,
                        tk >= 0,
                ;
                assert(del == delh + 1);
                assert((1 + 2 * del) * tk == (1 + 2 * delh) * tk + 2 * tk) by (nonlinear_arith)
                    requires
                        del == delh + 1,
                ;
                assert(kernel.time == old(kernel).time + (1 + 2 * del) * tk);
            }
        }
    }
}

} // verus!
