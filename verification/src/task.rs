//! Tasks: units of asynchronous work that may suspend any number of times
//! before producing an output.
//!
//! A task is an explicit poll-based state machine: running its runnable once
//! either completes it or leaves it suspended, and a suspended task may
//! request a future wakeup, which re-enqueues it for a later pass. A task here
//! is scripted by two values — how many runs it still suspends before
//! completing, and whether each suspension requests a wakeup — which is
//! exactly the behaviour the executor can observe of any cooperative
//! computation.

use vstd::prelude::*;

verus! {

/// One unit of asynchronous work, as the executor sees it.
#[derive(Clone, Copy, PartialEq, Eq, Structural)]
pub struct Task {
    /// How many more runs suspend before the task completes: a run with
    /// `remaining == 0` completes the task, any other run decrements this.
    pub remaining: u64,
    /// Whether a suspending run also requests a future wakeup
    /// (the captured waker re-enqueues it after the pass).
    pub wake_on_pending: bool,
    /// The output delivered on completion.
    pub output: u64,
    /// Completed: terminal, the output is available to the result handle.
    pub done: bool,
    /// A runnable for the task is currently in flight in the ready queue.
    /// At most one runnable per task exists at a time.
    pub scheduled: bool,
}

/// Caller-visible result handle returned by spawn: names the task whose
/// output it will yield once the task completes.
#[derive(Clone, Copy, PartialEq, Eq, Structural)]
pub struct TaskHandle {
    /// Index of the task in the scheduler that spawned it.
    pub id: usize,
}

/// What one run of a (not yet completed) task does to it: with no suspensions
/// left it completes and leaves the queue for good; otherwise it burns one
/// suspension and is scheduled again exactly when it requested a wakeup.
pub open spec fn run_step(t: Task) -> Task {
    if t.remaining == 0 {
        Task { done: true, scheduled: false, ..t }
    } else {
        Task { remaining: (t.remaining - 1) as u64, scheduled: t.wake_on_pending, ..t }
    }
}

/// Whether running `t` leaves a wakeup request to honour after the pass:
/// it suspends (does not complete) and asks to be woken.
pub open spec fn requeues(t: Task) -> bool {
    t.remaining > 0 && t.wake_on_pending
}

/// The task record a fresh spawn creates: not completed, with one runnable
/// already in flight.
pub open spec fn spawned_task(remaining: u64, wake_on_pending: bool, output: u64) -> Task {
    Task {
        remaining: remaining,
        wake_on_pending: wake_on_pending,
        output: output,
        done: false,
        scheduled: true,
    }
}

/// The wakeup requests a pass leaves behind, as a predicate on one queued
/// identifier: the task it names suspends and asks to be woken.
pub open spec fn requeue_pred(tasks: Seq<Task>) -> spec_fn(usize) -> bool {
    |id: usize| requeues(tasks[id as int])
}

/// Whether repeated passes alone drive `t` to completion, with no external
/// wake: it is already completed, or a runnable for it is in flight and every
/// suspension it has left requests its own wakeup.
pub open spec fn completes_unaided(t: Task) -> bool {
    t.done || (t.scheduled && (t.remaining == 0 || t.wake_on_pending))
}

/// Whether `t` is completed or completes on the very next pass: it is done,
/// or a runnable for it is in flight and its next run completes it.
pub open spec fn ready_now(t: Task) -> bool {
    t.done || (t.scheduled && t.remaining == 0)
}

/// `t` after `n` runs: the executor advances a task only by iterating
/// `run_step`.
pub open spec fn run_steps(t: Task, n: nat) -> Task
    decreases n,
{
    if n == 0 {
        t
    } else {
        run_steps(run_step(t), (n - 1) as nat)
    }
}

/// One more run is one more `run_step` at the end of the chain.
pub proof fn lemma_run_steps_snoc(t: Task, n: nat)
    ensures
        run_steps(t, n + 1) == run_step(run_steps(t, n)),
    decreases n,
{
    reveal_with_fuel(run_steps, 2);
    if n > 0 {
        lemma_run_steps_snoc(run_step(t), (n - 1) as nat);
    }
}

/// `t1` is `t0` advanced by some number of runs: the only way the executor
/// ever moves a task.
pub open spec fn advanced(t0: Task, t1: Task) -> bool {
    exists|n: nat| t1 == run_steps(t0, n)
}

/// A task is trivially advanced from itself, by zero runs.
pub proof fn lemma_advanced_refl(t: Task)
    ensures
        advanced(t, t),
{
    assert(t == run_steps(t, 0));
}

/// Advancing one more run keeps a task advanced from where it started.
pub proof fn lemma_advanced_step(t0: Task, t1: Task)
    requires
        advanced(t0, t1),
    ensures
        advanced(t0, run_step(t1)),
{
    let n = choose|n: nat| t1 == run_steps(t0, n);
    lemma_run_steps_snoc(t0, n);
    assert(run_step(t1) == run_steps(t0, n + 1));
}

} // verus!
