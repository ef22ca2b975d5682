use hermit_executor::driver::block_on;
use hermit_executor::kernel::Kernel;
use hermit_executor::notify::ThreadNotify;
use hermit_executor::sched::Scheduler;

#[test]
fn coalescer_single_wakeup_for_many_notifies() {
    let mut k = Kernel::new(7, 1, None);
    let mut n = ThreadNotify::new(k.current_tid());
    n.wake_by_ref(&mut k);
    n.wake_by_ref(&mut k);
    n.wake_by_ref(&mut k);
    assert_eq!(k.wake_count, 1);
    assert!(n.reset());
    assert!(!n.reset());
    n.wake(&mut k);
    assert_eq!(k.wake_count, 2);
}

#[test]
fn pass_runs_each_entry_exactly_once() {
    let mut s = Scheduler::new();
    let a = s.spawn(5, true, 0);
    let b = s.spawn(5, true, 1);
    let c = s.spawn(5, true, 2);
    assert_eq!(s.pending(), 3);
    s.run_executor();
    // every task ran exactly once, and the self-requeues are all deferred
    assert_eq!(s.tasks[a.id].remaining, 4);
    assert_eq!(s.tasks[b.id].remaining, 4);
    assert_eq!(s.tasks[c.id].remaining, 4);
    assert_eq!(s.pending(), 3);
}

#[test]
fn spawned_task_gets_one_run_without_a_wake() {
    let mut s = Scheduler::new();
    let h = s.spawn(1, false, 3);
    assert_eq!(s.pending(), 1);
    s.run_executor();
    // ran once, suspended without requesting a wakeup: dormant now
    assert_eq!(s.pending(), 0);
    assert_eq!(s.poll_handle(h), None);
    // an external waker re-enqueues it; the next pass completes it
    s.wake_task(h.id);
    assert_eq!(s.pending(), 1);
    s.run_executor();
    assert_eq!(s.poll_handle(h), Some(3));
    // waking a completed task changes nothing
    s.wake_task(h.id);
    assert_eq!(s.pending(), 0);
}

#[test]
fn wakeups_are_deferred_to_the_next_pass() {
    // a task that immediately requests a wakeup is not re-run within the
    // same pass: each pass advances it exactly once
    let mut s = Scheduler::new();
    let h = s.spawn(2, true, 9);
    s.run_executor();
    assert_eq!(s.tasks[h.id].remaining, 1);
    assert_eq!(s.poll_handle(h), None);
    assert_eq!(s.pending(), 1);
    s.run_executor();
    assert_eq!(s.tasks[h.id].remaining, 0);
    assert_eq!(s.poll_handle(h), None);
    assert_eq!(s.pending(), 1);
    s.run_executor();
    assert_eq!(s.poll_handle(h), Some(9));
    assert_eq!(s.pending(), 0);
}

#[test]
fn drive_completes_in_one_pass_without_blocking() {
    let mut s = Scheduler::new();
    let h = s.spawn(0, false, 42);
    let mut k = Kernel::new(7, 1, None);
    let mut n = ThreadNotify::new(k.current_tid());
    let r = block_on(&mut s, &mut k, &mut n, h, Some(1000));
    assert_eq!(r, Ok(42));
    assert_eq!(s.pending(), 0);
    assert_eq!(k.block_log, Vec::<u64>::new());
    assert_eq!(k.yield_count, 0);
    assert_eq!(k.wake_count, 0);
    assert!(!k.polling);
}

#[test]
fn drive_without_timeout_never_times_out() {
    let mut s = Scheduler::new();
    let h = s.spawn(3, true, 11);
    let mut k = Kernel::new(7, 1, None);
    let mut n = ThreadNotify::new(k.current_tid());
    let r = block_on(&mut s, &mut k, &mut n, h, None);
    assert_eq!(r, Ok(11));
    assert_eq!(k.block_log, Vec::<u64>::new());
}

#[test]
fn drive_busy_polls_to_timeout_when_stack_is_idle() {
    // the oracle reports nothing scheduled: treat as zero delay, never park
    let mut s = Scheduler::new();
    let h = s.spawn(u64::MAX, true, 0);
    let mut k = Kernel::new(7, 1, None);
    let mut n = ThreadNotify::new(k.current_tid());
    let r = block_on(&mut s, &mut k, &mut n, h, Some(50));
    assert_eq!(r, Err(()));
    assert_eq!(k.block_log, Vec::<u64>::new());
    // two clock reads per busy iteration: the deadline is seen at 51ms
    assert_eq!(k.time, 52);
    assert!(!k.polling);
}

#[test]
fn drive_parks_once_per_idle_period_with_the_oracle_delay() {
    let mut s = Scheduler::new();
    let h = s.spawn(u64::MAX, true, 0);
    let mut k = Kernel::new(7, 1, Some(500));
    let mut n = ThreadNotify::new(k.current_tid());
    let r = block_on(&mut s, &mut k, &mut n, h, Some(600));
    assert_eq!(r, Err(()));
    // one block of exactly the reported delay per idle period, then the
    // deadline check fires before any further sleep
    assert_eq!(k.block_log, vec![500, 500]);
    assert_eq!(k.yield_count, 2);
    assert_eq!(k.time, 1006);
    assert!(!k.polling);
}

#[test]
fn pending_wake_skips_the_park() {
    // two wake signals race with the decision to sleep: the first park
    // decision sees the pending flag and is skipped, so the wake is not lost
    let mut s = Scheduler::new();
    let h = s.spawn(u64::MAX, true, 0);
    let mut k = Kernel::new(7, 1, Some(500));
    let mut n = ThreadNotify::new(k.current_tid());
    n.wake_by_ref(&mut k);
    n.wake_by_ref(&mut k);
    assert_eq!(k.wake_count, 1);
    let r = block_on(&mut s, &mut k, &mut n, h, Some(4));
    assert_eq!(r, Err(()));
    // only the second park decision, with the flag clear, really blocks
    assert_eq!(k.block_log, vec![500]);
    assert_eq!(k.yield_count, 1);
}

#[test]
fn spawn_orders_the_queue_and_counts_tasks() {
    let mut s = Scheduler::new();
    assert_eq!(s.task_count(), 0);
    assert_eq!(s.pending(), 0);
    let a = s.spawn(0, false, 1);
    let b = s.spawn(0, false, 2);
    assert_eq!(a.id, 0);
    assert_eq!(b.id, 1);
    assert_eq!(s.task_count(), 2);
    assert_eq!(s.pending(), 2);
    s.run_executor();
    assert_eq!(s.pending(), 0);
    assert_eq!(s.poll_handle(a), Some(1));
    assert_eq!(s.poll_handle(b), Some(2));
}

#[test]
fn drive_on_a_dormant_future_times_out() {
    // the driver itself never wakes a dormant task: only the timeout ends
    // the call
    let mut s = Scheduler::new();
    let h = s.spawn(1, false, 5);
    s.run_executor();
    assert_eq!(s.pending(), 0);
    let mut k = Kernel::new(7, 1, None);
    let mut n = ThreadNotify::new(k.current_tid());
    let r = block_on(&mut s, &mut k, &mut n, h, Some(10));
    assert_eq!(r, Err(()));
    assert_eq!(s.poll_handle(h), None);
}

#[test]
fn drive_succeeds_across_many_passes_inside_the_window() {
    // success is owed: the task needs four passes, the stack is idle, and
    // the window comfortably covers the passes' clock cost
    let mut s = Scheduler::new();
    let h = s.spawn(3, true, 11);
    let mut k = Kernel::new(7, 1, None);
    let mut n = ThreadNotify::new(k.current_tid());
    let r = block_on(&mut s, &mut k, &mut n, h, Some(1000));
    assert_eq!(r, Ok(11));
    assert_eq!(k.block_log, Vec::<u64>::new());
    // three full busy iterations of two clock reads each, after the
    // initial read; the fourth pass completes before any further read
    assert_eq!(k.time, 7);
}

#[test]
fn timeout_does_not_cancel_background_tasks() {
    let mut s = Scheduler::new();
    let bg = s.spawn(2, false, 77);
    s.run_executor();
    // the background task is dormant now, one suspension burned
    assert_eq!(s.tasks[bg.id].remaining, 1);
    let fut = s.spawn(u64::MAX, true, 0);
    let mut k = Kernel::new(7, 1, None);
    let mut n = ThreadNotify::new(k.current_tid());
    let r = block_on(&mut s, &mut k, &mut n, fut, Some(20));
    assert_eq!(r, Err(()));
    // the dormant task is exactly as it was, and the driver woke nothing
    assert_eq!(s.tasks[bg.id].remaining, 1);
    assert!(!s.tasks[bg.id].done);
    assert_eq!(k.wake_count, 0);
    // external wakes still complete it afterwards, one run per wake
    s.wake_task(bg.id);
    s.run_executor();
    assert_eq!(s.tasks[bg.id].remaining, 0);
    assert_eq!(s.poll_handle(bg), None);
    s.wake_task(bg.id);
    s.run_executor();
    assert_eq!(s.poll_handle(bg), Some(77));
}
