//! The scheduler: task storage, the task spawner, and the pass executor.
//!
//! A `Scheduler` owns the tasks and the ready queue of runnable identifiers.
//! It is an explicitly constructed value, passed by reference to spawn and to
//! the pass executor, so independent instances can coexist.
//!
//! Well-formedness ties the two together: every queued identifier names a
//! live (not completed) task, no identifier is queued twice — one runnable
//! per task is in flight at a time — and a task's `scheduled` flag records
//! exactly whether such a runnable exists.

use vstd::prelude::*;
use vstd::pervasive::VecAdditionalExecFns;
use crate::queue::ReadyQueue;
use crate::task::Task;
use crate::task::TaskHandle;
use crate::task::run_step;
use crate::task::requeues;
use crate::task::requeue_pred;
use crate::task::spawned_task;

verus! {

broadcast use vstd::seq_lib::group_filter_ensures;

/// Every item a filtered sequence holds was an item of the sequence it
/// was filtered from.
proof fn lemma_filter_sub(s: Seq<usize>, pred: spec_fn(usize) -> bool)
    ensures
        forall|a: int|
            0 <= a < s.filter(pred).len() ==> s.contains(#[trigger] s.filter(pred)[a]),
    decreases s.len(),
{
    reveal(Seq::filter);
    if s.len() > 0 {
        lemma_filter_sub(s.drop_last(), pred);
        let f = s.filter(pred);
        let fd = s.drop_last().filter(pred);
        assert forall|a: int| 0 <= a < f.len() implies s.contains(f[a]) by {
            if a < fd.len() {
                assert(f[a] == fd[a]);
                assert(s.drop_last().contains(fd[a]));
                let w = choose|w: int|
                    0 <= w < s.drop_last().len() && s.drop_last()[w] == fd[a];
                assert(s[w] == f[a]);
            } else {
                assert(pred(s.last()) && f[a] == s.last());
                assert(s[s.len() - 1] == f[a]);
            }
        }
    }
}

/// Filtering keeps distinct items distinct.
proof fn lemma_filter_nodup(s: Seq<usize>, pred: spec_fn(usize) -> bool)
    requires
        forall|a: int, b: int| 0 <= a < b < s.len() ==> s[a] != s[b],
    ensures
        forall|a: int, b: int|
            0 <= a < b < s.filter(pred).len() ==> s.filter(pred)[a] != s.filter(pred)[b],
    decreases s.len(),
{
    reveal(Seq::filter);
    if s.len() > 0 {
        lemma_filter_nodup(s.drop_last(), pred);
        lemma_filter_sub(s.drop_last(), pred);
        let f = s.filter(pred);
        let fd = s.drop_last().filter(pred);
        assert forall|a: int, b: int| 0 <= a < b < f.len() implies f[a] != f[b] by {
            if b < fd.len() {
                assert(f[a] == fd[a] && f[b] == fd[b]);
            } else {
                assert(pred(s.last()) && b == fd.len() && f[b] == s.last());
                assert(f[a] == fd[a]);
                assert(s.drop_last().contains(fd[a]));
                let w = choose|w: int|
                    0 <= w < s.drop_last().len() && s.drop_last()[w] == fd[a];
                assert(s[w] == fd[a] && w < s.len() - 1);
                assert(s[w] != s[s.len() - 1]);
            }
        }
    }
}

/// Task storage plus the ready queue of runnable identifiers.
pub struct Scheduler {
    /// Every task ever spawned on this scheduler, by identifier.
    pub tasks: Vec<Task>,
    /// Identifiers of the tasks with a runnable in flight, oldest first.
    pub queue: ReadyQueue,
}

impl Scheduler {
    /// Well-formedness: queued identifiers name live tasks, at most one
    /// runnable per task is in flight, and `scheduled` records exactly that.
    pub open spec fn wf(self) -> bool {
        &&& forall|i: int|
            0 <= i < self.queue@.len() ==> (#[trigger] self.queue@[i]) < self.tasks@.len()
        &&& forall|i: int, j: int|
            0 <= i < j < self.queue@.len() ==> self.queue@[i] != self.queue@[j]
        &&& forall|i: int|
            0 <= i < self.queue@.len() ==> !self.tasks@[(#[trigger] self.queue@[i]) as int].done
        &&& forall|id: usize|
            id < self.tasks@.len() ==> ((#[trigger] self.tasks@[id as int]).scheduled
                <==> self.queue@.contains(id))
    }

    /// A scheduler with no tasks and an empty ready queue.
    pub fn new() -> (s: Scheduler)
        ensures
            s.wf(),
            s.tasks@.len() == 0,
            s.queue@.len() == 0,
    {
        Scheduler { tasks: Vec::new(), queue: ReadyQueue::new() }
    }

    /// Number of runnables currently in flight.
    pub fn pending(&self) -> (n: usize)
        ensures
            n == self.queue@.len(),
    {
        self.queue.len()
    }

    /// Number of tasks ever spawned.
    pub fn task_count(&self) -> (n: usize)
        ensures
            n == self.tasks@.len(),
    {
        self.tasks.len()
    }

    /// Spawns a unit of asynchronous work: creates the task, creates one
    /// runnable for it and pushes it to the ready queue — a freshly spawned
    /// task always gets at least one run attempt without an external wake —
    /// and returns the caller-visible result handle.
    ///
    /// The work is scripted by `suspensions` (how many runs suspend before
    /// one completes it), `wake_on_pending` (whether each suspension requests
    /// a wakeup) and `output` (what completion delivers).
    pub fn spawn(&mut self, suspensions: u64, wake_on_pending: bool, output: u64) -> (h:
        TaskHandle)
        requires
            old(self).wf(),
            old(self).tasks@.len() < usize::MAX,
        ensures
            final(self).wf(),
            h.id == old(self).tasks@.len(),
            final(self).tasks@ == old(self).tasks@.push(
                spawned_task(suspensions, wake_on_pending, output),
            ),
            final(self).queue@ == old(self).queue@.push(h.id),
    {
        let id = self.tasks.len();
        self.tasks.push(
            Task {
                remaining: suspensions,
                wake_on_pending: wake_on_pending,
                output: output,
                done: false,
                scheduled: true,
            },
        );
        self.queue.push(id);
        proof {
            let q0 = old(self).queue@;
            let t0 = old(self).tasks@;
            assert forall|id2: usize| id2 < self.tasks@.len() implies ((
            #[trigger] self.tasks@[id2 as int]).scheduled <==> self.queue@.contains(id2)) by {
                if id2 < t0.len() {
                    assert(self.tasks@[id2 as int] == t0[id2 as int]);
                    if t0[id2 as int].scheduled {
                        let w = choose|w: int| 0 <= w < q0.len() && q0[w] == id2;
                        assert(self.queue@[w] == id2);
                    }
                    if self.queue@.contains(id2) {
                        let w = choose|w: int|
                            0 <= w < self.queue@.len() && self.queue@[w] == id2;
                        assert(w < q0.len());
                        assert(q0.contains(id2));
                    }
                } else {
                    assert(self.queue@[q0.len() as int] == id);
                }
            }
        }
        TaskHandle { id: id }
    }

    /// Polls a result handle: the task's output once it has completed, or
    /// "not ready".
    pub fn poll_handle(&self, h: TaskHandle) -> (r: Option<u64>)
        requires
            h.id < self.tasks@.len(),
        ensures
            r == if self.tasks@[h.id as int].done {
                Some(self.tasks@[h.id as int].output)
            } else {
                None::<u64>
            },
    {
        let t = self.tasks[h.id];
        if t.done {
            Some(t.output)
        } else {
            None
        }
    }

    /// Invokes a waker: re-waking a dormant task (no runnable in flight, not
    /// completed) produces a new runnable for it; waking a task that is
    /// already in flight or completed changes nothing.
    pub fn wake_task(&mut self, id: usize)
        requires
            old(self).wf(),
            id < old(self).tasks@.len(),
        ensures
            final(self).wf(),
            ({
                let t = old(self).tasks@[id as int];
                if !t.scheduled && !t.done {
                    final(self).tasks@ == old(self).tasks@.update(
                        id as int,
                        Task { scheduled: true, ..t },
                    ) && final(self).queue@ == old(self).queue@.push(id)
                } else {
                    final(self).tasks@ == old(self).tasks@
                        && final(self).queue@ == old(self).queue@
                }
            }),
    {
        let t = self.tasks[id];
        if !t.scheduled && !t.done {
            self.tasks.set(id, Task { scheduled: true, ..t });
            self.queue.push(id);
            proof {
                let q0 = old(self).queue@;
                let t0 = old(self).tasks@;
                assert(!q0.contains(id));
                assert forall|i: int, j: int|
                    0 <= i < j < self.queue@.len() implies self.queue@[i] != self.queue@[j] by {
                    if j < q0.len() {
                        assert(self.queue@[i] == q0[i] && self.queue@[j] == q0[j]);
                    } else {
                        assert(self.queue@[j] == id);
                        assert(self.queue@[i] == q0[i]);
                        if q0[i] == id {
                            assert(q0.contains(id));
                        }
                    }
                }
                assert forall|id2: usize| id2 < self.tasks@.len() implies ((
                #[trigger] self.tasks@[id2 as int]).scheduled <==> self.queue@.contains(
                    id2,
                )) by {
                    if id2 == id {
                        assert(self.queue@[q0.len() as int] == id);
                    } else {
                        assert(self.tasks@[id2 as int] == t0[id2 as int]);
                        if t0[id2 as int].scheduled {
                            let w = choose|w: int| 0 <= w < q0.len() && q0[w] == id2;
                            assert(self.queue@[w] == id2);
                        }
                        if self.queue@.contains(id2) {
                            let w = choose|w: int|
                                0 <= w < self.queue@.len() && self.queue@[w] == id2;
                            assert(w < q0.len());
                            assert(q0.contains(id2));
                        }
                    }
                }
            }
        }
    }

    /// One pass of the executor: drains exactly as many runnables as the
    /// ready queue held at entry — work enqueued while the pass runs is
    /// deferred to the next pass — runs each drained task once, captures the
    /// wakeup requests those runs produce, and only after the whole pass
    /// invokes the captured wakers, re-enqueueing the tasks that asked to be
    /// woken, in the order they ran.
    pub fn run_executor(&mut self)
        requires
            old(self).wf(),
        ensures
            final(self).wf(),
            final(self).tasks@.len() == old(self).tasks@.len(),
            // every runnable that was ready at entry is run exactly once
            forall|j: int|
                0 <= j < old(self).queue@.len() ==> final(self).tasks@[(
                #[trigger] old(self).queue@[j]) as int] == run_step(
                    old(self).tasks@[old(self).queue@[j] as int],
                ),
            // and nothing else is run
            forall|id: usize|
                id < old(self).tasks@.len() && !old(self).queue@.contains(id)
                    ==> final(self).tasks@[id as int] == #[trigger] old(self).tasks@[id as int],
            // the next pass sees exactly the deferred wakeup requests, in order
            final(self).queue@ == old(self).queue@.filter(requeue_pred(old(self).tasks@)),
            final(self).queue@.len() <= old(self).queue@.len(),
    {
        let ghost q0 = self.queue@;
        let ghost t0 = self.tasks@;
        let n = self.queue.len();
        let mut wake_buf: Vec<usize> = Vec::new();
        let mut i: usize = 0;
        while i < n
            invariant
                i <= n,
                n == q0.len(),
                self.queue@ == q0.skip(i as int),
                self.tasks@.len() == t0.len(),
                forall|a: int| 0 <= a < q0.len() ==> (#[trigger] q0[a]) < t0.len(),
                forall|a: int, b: int| 0 <= a < b < q0.len() ==> q0[a] != q0[b],
                forall|a: int| 0 <= a < q0.len() ==> !t0[(#[trigger] q0[a]) as int].done,
                forall|j: int|
                    0 <= j < i ==> self.tasks@[(#[trigger] q0[j]) as int] == run_step(
                        t0[q0[j] as int],
                    ),
                forall|id: usize|
                    id < t0.len() && !q0.take(i as int).contains(id) ==> self.tasks@[id as int]
                        == #[trigger] t0[id as int],
                wake_buf@ == q0.take(i as int).filter(requeue_pred(t0)),
            decreases n - i,
        {
            proof {
                assert(q0.skip(i as int).len() > 0);
            }
            let id = self.queue.pop().unwrap();
            proof {
                assert(q0.skip(i as int)[0] == q0[i as int]);
                assert(id == q0[i as int]);
                assert(q0.skip(i as int).skip(1) =~= q0.skip(i as int + 1));
                assert(!q0.take(i as int).contains(id));
                assert(self.tasks@[id as int] == t0[id as int]);
            }
            let t = self.tasks[id];
            if t.remaining == 0 {
                self.tasks.set(id, Task { done: true, scheduled: false, ..t });
            } else {
                self.tasks.set(
                    id,
                    Task { remaining: t.remaining - 1, scheduled: t.wake_on_pending, ..t },
                );
                if t.wake_on_pending {
                    wake_buf.push(id);
                }
            }
            proof {
                let taken = q0.take(i as int);
                assert(q0.take(i as int + 1) =~= taken.push(q0[i as int]));
                reveal(Seq::filter);
                assert(taken.push(q0[i as int]).drop_last() =~= taken);
                assert(taken.push(q0[i as int]).last() == q0[i as int]);
                assert(wake_buf@ == q0.take(i as int + 1).filter(requeue_pred(t0)));
                assert forall|id2: usize|
                    id2 < t0.len() && !q0.take(i as int + 1).contains(
                        id2,
                    ) implies self.tasks@[id2 as int] == t0[id2 as int] by {
                    assert(!taken.contains(id2));
                    assert(id2 != id);
                }
            }
            i = i + 1;
        }
        proof {
            assert(q0.take(n as int) =~= q0);
            assert(q0.skip(n as int) =~= Seq::<usize>::empty());
        }
        let ghost t1 = self.tasks@;
        let mut k: usize = 0;
        while k < wake_buf.len()
            invariant
                k <= wake_buf@.len(),
                self.tasks@ == t1,
                t1.len() == t0.len(),
                self.queue@ == wake_buf@.take(k as int),
                wake_buf@ == q0.filter(requeue_pred(t0)),
            decreases wake_buf@.len() - k,
        {
            let id = wake_buf[k];
            self.queue.push(id);
            proof {
                assert(wake_buf@.take(k as int + 1) =~= wake_buf@.take(k as int).push(
                    wake_buf@[k as int],
                ));
            }
            k = k + 1;
        }
        proof {
            assert(wake_buf@.take(wake_buf@.len() as int) =~= wake_buf@);
            let f = q0.filter(requeue_pred(t0));
            assert(self.queue@ == f);
            lemma_filter_sub(q0, requeue_pred(t0));
            lemma_filter_nodup(q0, requeue_pred(t0));
            // every filtered identifier sits somewhere in the entry queue
            assert forall|a: int| 0 <= a < f.len() implies (#[trigger] f[a]) < t1.len()
                && !self.tasks@[f[a] as int].done by {
                assert(q0.contains(f[a]));
                let w = choose|w: int| 0 <= w < q0.len() && q0[w] == f[a];
                assert(requeue_pred(t0)(f[a]));
                assert(requeues(t0[f[a] as int]));
                assert(self.tasks@[q0[w] as int] == run_step(t0[q0[w] as int]));
            }
            assert forall|id2: usize| id2 < t1.len() implies ((
            #[trigger] self.tasks@[id2 as int]).scheduled <==> self.queue@.contains(id2)) by {
                if q0.contains(id2) {
                    let w = choose|w: int| 0 <= w < q0.len() && q0[w] == id2;
                    assert(self.tasks@[q0[w] as int] == run_step(t0[q0[w] as int]));
                    assert(self.tasks@[id2 as int] == run_step(t0[id2 as int]));
                    assert(self.tasks@[id2 as int].scheduled == requeues(t0[id2 as int]));
                    if requeues(t0[id2 as int]) {
                        assert(requeue_pred(t0)(id2));
                        assert(f.contains(q0[w]));
                    }
                    if f.contains(id2) {
                        let v = choose|v: int| 0 <= v < f.len() && f[v] == id2;
                        assert(requeue_pred(t0)(f[v]));
                        assert(requeues(t0[id2 as int]));
                    }
                } else {
                    assert(self.tasks@[id2 as int] == t0[id2 as int]);
                    assert(!t0[id2 as int].scheduled);
                    if f.contains(id2) {
                        let v = choose|v: int| 0 <= v < f.len() && f[v] == id2;
                        assert(q0.contains(f[v]));
                    }
                }
            }
        }
    }
}

} // verus!
