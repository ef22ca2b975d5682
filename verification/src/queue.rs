//! The ready queue: a process-wide, multi-producer/single-consumer FIFO of
//! runnable task identifiers.
//!
//! The queue itself is `concurrent_queue::ConcurrentQueue`, the lock-free
//! structure that lets wake signals enqueue work from any execution context
//! while a single consumer drains it. The items it holds are named by the
//! uninterpreted sequence `rq_entries`, and each method the executor calls is
//! a trusted wrapper whose contract states what the crate's source shows:
//! push appends, pop removes the oldest, len reports the count.
//!
//! Every `ReadyQueue` is made by `ReadyQueue::new` from an unbounded queue,
//! and nothing here ever closes it, so push never fails and pop fails only on
//! an empty queue.

use vstd::prelude::*;
use concurrent_queue::ConcurrentQueue;

verus! {

#[verifier::external_type_specification]
#[verifier::external_body]
#[verifier::reject_recursive_types(T)]
pub struct ExConcurrentQueue<T>(ConcurrentQueue<T>);

/// FIFO of runnable task identifiers, drained by one consumer.
pub struct ReadyQueue {
    inner: ConcurrentQueue<usize>,
}

/// The items a ready queue holds, oldest first.
pub uninterp spec fn rq_entries(q: ReadyQueue) -> Seq<usize>;

impl View for ReadyQueue {
    type V = Seq<usize>;

    open spec fn view(&self) -> Seq<usize> {
        rq_entries(*self)
    }
}

impl ReadyQueue {
    /// Relies on `ConcurrentQueue::unbounded`: a freshly created unbounded
    /// queue holds no items.
    #[verifier::external_body]
    pub fn new() -> (q: ReadyQueue)
        ensures
            rq_entries(q) == Seq::<usize>::empty(),
    {
        ReadyQueue { inner: ConcurrentQueue::unbounded() }
    }

    /// Relies on `ConcurrentQueue::push`: appends the item at the back. On an
    /// unbounded queue that was never closed — true of every `ReadyQueue` —
    /// push cannot report full or closed.
    #[verifier::external_body]
    pub fn push(&mut self, id: usize)
        ensures
            rq_entries(*final(self)) == rq_entries(*old(self)).push(id),
    {
        self.inner.push(id).unwrap();
    }

    /// Relies on `ConcurrentQueue::pop`: removes and returns the oldest item,
    /// or reports empty. Never-closed queues only ever report `Empty`.
    #[verifier::external_body]
    pub fn pop(&mut self) -> (r: Option<usize>)
        ensures
            rq_entries(*old(self)).len() == 0 ==> r is None && rq_entries(*final(self))
                == rq_entries(*old(self)),
            rq_entries(*old(self)).len() > 0 ==> r == Some(rq_entries(*old(self))[0])
                && rq_entries(*final(self)) == rq_entries(*old(self)).skip(1),
    {
        match self.inner.pop() {
            Ok(id) => Some(id),
            Err(_) => None,
        }
    }

    /// Relies on `ConcurrentQueue::len`: the number of items in the queue.
    #[verifier::external_body]
    pub fn len(&self) -> (n: usize)
        ensures
            n == rq_entries(*self).len(),
    {
        self.inner.len()
    }
}

} // verus!
