use photonio::sched::{RunQueue, Schedule};

#[test]
fn yield_then_schedule_runs_each_exactly_once_in_order() {
    let mut q = RunQueue::new();
    q.yield_now(7);
    q.schedule(8);
    let ran = q.drain();
    assert_eq!(ran, vec![7, 8]);
    assert_eq!(q.len(), 0);
}

#[test]
fn queue_is_fifo() {
    let mut q = RunQueue::new();
    q.schedule(1);
    q.schedule(2);
    q.yield_now(3);
    assert_eq!(q.pop_next(), Some(1));
    assert_eq!(q.pop_next(), Some(2));
    assert_eq!(q.pop_next(), Some(3));
    assert_eq!(q.pop_next(), None);
}

#[test]
fn a_yielding_task_cannot_starve_later_arrivals() {
    let mut q = RunQueue::new();
    q.yield_now(1);
    q.schedule(2);
    // The yielder runs once, and if it yields again it lands behind the
    // newcomer: the newcomer runs before the yielder's second turn.
    let first = q.pop_next().unwrap();
    assert_eq!(first, 1);
    q.yield_now(first);
    assert_eq!(q.pop_next(), Some(2));
    assert_eq!(q.pop_next(), Some(1));
}
