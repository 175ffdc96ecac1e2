//! The task-scheduling contract between op-future wakers and the executor,
//! and a FIFO run queue satisfying it.

use vstd::prelude::*;

use crate::driver::TaskId;

verus! {

/// The interface an executor offers to op-future wakers. Tasks are opaque to
/// this core: the executor hands them out and runs them.
pub trait Schedule {
    /// The tasks waiting to run, oldest first.
    spec fn queued(&self) -> Seq<TaskId>;

    /// Enqueues `task` for execution: it runs after every task already
    /// waiting and before anything scheduled later — FIFO fairness among
    /// newly scheduled tasks.
    fn schedule(&mut self, task: TaskId)
        ensures
            final(self).queued() == old(self).queued().push(task),
    ;

    /// Requeues a task that voluntarily relinquishes control without being
    /// woken by I/O. It lands behind every task already waiting, so its delay
    /// is bounded by the queue it rejoined: tasks scheduled after it cannot
    /// starve it.
    fn yield_now(&mut self, task: TaskId)
        ensures
            final(self).queued() == old(self).queued().push(task),
    ;
}

/// Law: after a waiting queue sees `yield_now(t)` and then `schedule(u)`, one
/// drain — which runs the queued tasks in order, clearing the queue — runs
/// every previously waiting task as before, then `t` exactly once, then `u`
/// exactly once: `t` is not run a second time before `u` has run.
pub proof fn lemma_yield_then_schedule_fair(q0: Seq<TaskId>, t: TaskId, u: TaskId)
    ensures
        ({
            let d = q0.push(t).push(u);
            &&& d.len() == q0.len() + 2
            &&& d[q0.len() as int] == t
            &&& d[q0.len() as int + 1] == u
            &&& forall|i: int| 0 <= i < q0.len() ==> d[i] == q0[i]
        }),
{
}

/// A single-threaded FIFO run queue.
pub struct RunQueue {
    items: Vec<TaskId>,
}

impl RunQueue {
    /// An empty run queue.
    pub fn new() -> (r: RunQueue)
        ensures
            r.queued() == Seq::<TaskId>::empty(),
    {
        RunQueue { items: Vec::new() }
    }

    /// How many tasks are waiting.
    pub fn len(&self) -> (r: usize)
        ensures
            r == self.queued().len(),
    {
        self.items.len()
    }

    /// Takes the oldest waiting task, if any.
    pub fn pop_next(&mut self) -> (r: Option<TaskId>)
        ensures
            old(self).queued().len() == 0 ==> r is None
                && final(self).queued() == old(self).queued(),
            old(self).queued().len() > 0 ==> r == Some(old(self).queued()[0])
                && final(self).queued() == old(self).queued().skip(1),
    {
        if self.items.len() == 0 {
            return None;
        }
        let t = self.items.remove(0);
        proof {
            assert(self.queued() =~= old(self).queued().skip(1));
        }
        Some(t)
    }

    /// Takes every waiting task at once, oldest first, leaving the queue
    /// empty: one full pass of the executor's loop.
    pub fn drain(&mut self) -> (r: Vec<TaskId>)
        ensures
            r@ == old(self).queued(),
            final(self).queued() == Seq::<TaskId>::empty(),
    {
        let mut r: Vec<TaskId> = Vec::new();
        loop
            invariant
                r@ + self.queued() == old(self).queued(),
            decreases self.queued().len(),
        {
            match self.pop_next() {
                None => {
                    proof {
                        assert(r@ =~= old(self).queued());
                        assert(self.queued() =~= Seq::<TaskId>::empty());
                    }
                    return r;
                },
                Some(t) => {
                    r.push(t);
                    proof {
                        assert(r@ + self.queued() =~= old(self).queued());
                    }
                },
            }
        }
    }
}

impl Schedule for RunQueue {
    closed spec fn queued(&self) -> Seq<TaskId> {
        self.items@
    }

    fn schedule(&mut self, task: TaskId) {
        self.items.push(task);
    }

    fn yield_now(&mut self, task: TaskId) {
        self.items.push(task);
    }
}

} // verus!
