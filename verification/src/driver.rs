//! The completion multiplexer: one submission/completion channel, many
//! concurrent logical operations.
//!
//! The driver keeps one completion slot per submitted operation, keyed by the
//! operation identifier it hands out at submission. A slot is `Pending` from
//! submission until its completion event arrives, `Completed` until the owning
//! future consumes the result, and `Consumed` thereafter; a slot whose future
//! was discarded while in flight is `Cancelled`, and the driver keeps the
//! operation's descriptor — and so its bound buffers — alive until the kernel
//! confirms with a completion, at which point the descriptor is silently
//! dropped. The external event loop reads completion events from the kernel
//! and hands each one to [`Driver::complete`], which routes it to the waker of
//! exactly the operation it names.

use vstd::prelude::*;

use crate::op::{bound_bytes, consume_shape, SubmissionDescriptor};

verus! {

/// A schedulable unit of work, opaque to this core.
pub type TaskId = u64;

/// The lifecycle state of one completion slot.
pub enum SlotState {
    /// Submitted, completion not yet seen; `waker` is the task to wake when it
    /// arrives — at most one, the latest poll's.
    Pending { waker: Option<TaskId> },
    /// The kernel delivered `raw`; the owning future has not consumed it yet.
    Completed { raw: i32 },
    /// The owning future was discarded while the operation was in flight; the
    /// slot waits for the completion and then drops the descriptor.
    Cancelled,
    /// The result was consumed, or a cancelled operation's completion arrived.
    Consumed,
}

struct Slot {
    state: SlotState,
    desc: Option<SubmissionDescriptor>,
}

/// Whether a slot still occupies kernel-side submission capacity.
pub open spec fn occupies(s: SlotState) -> bool {
    s is Pending || s is Cancelled
}

spec fn flight_of(s: SlotState) -> nat {
    if occupies(s) {
        1
    } else {
        0
    }
}

spec fn count_in_flight(s: Seq<SlotState>) -> nat
    decreases s.len(),
{
    if s.len() == 0 {
        0
    } else {
        count_in_flight(s.drop_last()) + flight_of(s.last())
    }
}

proof fn lemma_count_push(s: Seq<SlotState>, x: SlotState)
    ensures
        count_in_flight(s.push(x)) == count_in_flight(s) + flight_of(x),
{
    assert(s.push(x).drop_last() =~= s);
    assert(s.push(x).last() == x);
}

proof fn lemma_count_update(s: Seq<SlotState>, i: int, x: SlotState)
    requires
        0 <= i < s.len(),
    ensures
        count_in_flight(s.update(i, x)) == count_in_flight(s) - flight_of(s[i]) + flight_of(x),
    decreases s.len(),
{
    if i == s.len() - 1 {
        assert(s.update(i, x).drop_last() =~= s.drop_last());
        assert(s.update(i, x).last() == x);
    } else {
        lemma_count_update(s.drop_last(), i, x);
        assert(s.update(i, x).drop_last() =~= s.drop_last().update(i, x));
        assert(s.update(i, x).last() == s.last());
    }
}

/// One completion event as the kernel delivers it: the identifier of the
/// operation it answers and the raw numeric result.
#[derive(Clone, Copy, Debug, PartialEq, Eq, Structural)]
pub struct CompletionEvent {
    pub id: usize,
    pub raw: i32,
}

/// The wakers a batch of completion events rouses, in delivery order: the
/// waker registered for each named operation, where one is registered.
pub open spec fn drive_wakes(pre: Driver, events: Seq<CompletionEvent>) -> Seq<TaskId>
    decreases events.len(),
{
    if events.len() == 0 {
        Seq::empty()
    } else {
        match pre.slot(events[0].id as int) {
            SlotState::Pending { waker: Some(w) } => seq![w] + drive_wakes(pre, events.skip(1)),
            _ => drive_wakes(pre, events.skip(1)),
        }
    }
}

/// The completion multiplexer.
pub struct Driver {
    slots: Vec<Slot>,
    capacity: usize,
    in_flight: usize,
}

impl Driver {
    /// How many operations were ever submitted; identifiers are dense indices
    /// below this count.
    pub closed spec fn num_slots(&self) -> nat {
        self.slots@.len()
    }

    /// The state of one completion slot.
    pub closed spec fn slot(&self, i: int) -> SlotState {
        self.slots@[i].state
    }

    /// The descriptor a slot holds, with its bound buffers.
    pub closed spec fn desc_at(&self, i: int) -> Option<SubmissionDescriptor> {
        self.slots@[i].desc
    }

    /// The submission capacity this driver was created with.
    pub closed spec fn capacity(&self) -> nat {
        self.capacity as nat
    }

    /// How many operations are in flight: submitted, their completion not yet
    /// delivered.
    pub closed spec fn in_flight(&self) -> nat {
        self.in_flight as nat
    }

    /// The driver's internal bookkeeping is coherent: the in-flight count
    /// matches the slots, never exceeds capacity, and exactly the slots whose
    /// operation the kernel may still touch hold a descriptor.
    pub closed spec fn wf(&self) -> bool {
        &&& self.in_flight as nat == count_in_flight(self.slots@.map_values(|s: Slot| s.state))
        &&& self.in_flight <= self.capacity
        &&& forall|i: int|
            0 <= i < self.slots@.len() ==> (#[trigger] self.slots@[i].desc is Some <==> !(
            self.slots@[i].state is Consumed))
    }

    /// A fresh driver with no operations and the given submission capacity.
    pub fn new(capacity: usize) -> (r: Driver)
        ensures
            r.wf(),
            r.num_slots() == 0,
            r.in_flight() == 0,
            r.capacity() == capacity,
    {
        let r = Driver { slots: Vec::new(), capacity, in_flight: 0 };
        proof {
            assert(r.slots@.map_values(|s: Slot| s.state) =~= Seq::<SlotState>::empty());
        }
        r
    }

    /// How many operations were ever submitted.
    pub fn num_ops(&self) -> (r: usize)
        ensures
            r == self.num_slots(),
    {
        self.slots.len()
    }

    /// Whether `id` names an operation that is still in flight (pending or
    /// cancelled-but-unconfirmed); total, so an external event loop can vet an
    /// identifier before delivering a completion for it.
    pub fn is_in_flight(&self, id: usize) -> (r: bool)
        ensures
            r == (id < self.num_slots() && occupies(self.slot(id as int))),
    {
        id < self.slots.len() && match self.slots[id].state {
            SlotState::Pending { .. } => true,
            SlotState::Cancelled => true,
            _ => false,
        }
    }

    /// The buffer bound to a slot's operation, if the slot still holds its
    /// descriptor and the operation binds one: what the submission boundary
    /// encodes, by address and length, into the kernel's entry format.
    pub fn peek_buffer(&self, id: usize) -> (r: Option<&Vec<u8>>)
        requires
            id < self.num_slots(),
        ensures
            match self.desc_at(id as int) {
                Some(d) => (r matches Some(v) ==> bound_bytes(d) == Some(v@)) && (r is Some
                    <==> bound_bytes(d) is Some),
                None => r is None,
            },
    {
        match &self.slots[id].desc {
            Some(SubmissionDescriptor::Accept { addr, .. }) => Some(addr),
            Some(SubmissionDescriptor::Connect { addr, .. }) => Some(addr),
            Some(SubmissionDescriptor::Open { path_nul, .. }) => Some(path_nul),
            Some(SubmissionDescriptor::Close { .. }) => None,
            Some(SubmissionDescriptor::Read { buf, .. }) => Some(buf),
            Some(SubmissionDescriptor::Write { buf, .. }) => Some(buf),
            Some(SubmissionDescriptor::Fstat { stat, .. }) => Some(stat),
            Some(SubmissionDescriptor::Fsync { .. }) => None,
            None => None,
        }
    }

    /// Registers a new completion slot for `d` and enqueues it, handing out
    /// the operation's identifier. Fails, synchronously and returning the
    /// descriptor untouched, exactly when submission capacity is exhausted.
    pub fn submit(&mut self, d: SubmissionDescriptor, waker: Option<TaskId>) -> (r: Result<
        usize,
        SubmissionDescriptor,
    >)
        requires
            old(self).wf(),
        ensures
            final(self).wf(),
            final(self).capacity() == old(self).capacity(),
            (r is Ok) <==> old(self).in_flight() < old(self).capacity(),
            r matches Ok(id) ==> {
                &&& id == old(self).num_slots()
                &&& final(self).num_slots() == old(self).num_slots() + 1
                &&& final(self).in_flight() == old(self).in_flight() + 1
                &&& final(self).slot(id as int) == (SlotState::Pending { waker })
                &&& final(self).desc_at(id as int) == Some(d)
                &&& forall|j: int|
                    0 <= j < old(self).num_slots() ==> final(self).slot(j) == old(self).slot(j)
                        && final(self).desc_at(j) == old(self).desc_at(j)
            },
            r matches Err(back) ==> back == d && *final(self) == *old(self),
    {
        if self.in_flight >= self.capacity {
            return Err(d);
        }
        let ghost pre = self.slots@.map_values(|s: Slot| s.state);
        let id = self.slots.len();
        self.slots.push(Slot { state: SlotState::Pending { waker }, desc: Some(d) });
        self.in_flight = self.in_flight + 1;
        proof {
            lemma_count_push(pre, SlotState::Pending { waker });
            assert(self.slots@.map_values(|s: Slot| s.state) =~= pre.push(
                SlotState::Pending { waker },
            ));
        }
        Ok(id)
    }

    /// Sets the waker of a pending operation, replacing any previously
    /// registered one: at most one waker is active per slot.
    pub fn register_waker(&mut self, id: usize, task: TaskId)
        requires
            old(self).wf(),
            id < old(self).num_slots(),
            old(self).slot(id as int) is Pending,
        ensures
            final(self).wf(),
            final(self).num_slots() == old(self).num_slots(),
            final(self).capacity() == old(self).capacity(),
            final(self).in_flight() == old(self).in_flight(),
            final(self).slot(id as int) == (SlotState::Pending { waker: Some(task) }),
            final(self).desc_at(id as int) == old(self).desc_at(id as int),
            forall|j: int|
                0 <= j < old(self).num_slots() && j != id ==> final(self).slot(j) == old(
                    self,
                ).slot(j) && final(self).desc_at(j) == old(self).desc_at(j),
    {
        let ghost pre = self.slots@.map_values(|s: Slot| s.state);
        self.slots[id].state = SlotState::Pending { waker: Some(task) };
        proof {
            lemma_count_update(pre, id as int, SlotState::Pending { waker: Some(task) });
            assert(self.slots@.map_values(|s: Slot| s.state) =~= pre.update(
                id as int,
                SlotState::Pending { waker: Some(task) },
            ));
        }
    }

    /// The raw result of `id` if its completion has been delivered and not yet
    /// consumed.
    pub fn completion(&self, id: usize) -> (r: Option<i32>)
        requires
            id < self.num_slots(),
        ensures
            r == (match self.slot(id as int) {
                SlotState::Completed { raw } => Some(raw),
                _ => None::<i32>,
            }),
    {
        match self.slots[id].state {
            SlotState::Completed { raw } => Some(raw),
            _ => None,
        }
    }

    /// Delivers the completion event for `id`: stores the raw result and hands
    /// back the waker to invoke — the waker registered for exactly this
    /// operation; every other slot is untouched. A completion for an operation
    /// that is not in flight is a protocol violation and left out by contract:
    /// a slot sees at most one completion.
    ///
    /// For a cancelled operation the completion confirms that the kernel has
    /// released the buffers: the descriptor is dropped silently and nothing is
    /// woken.
    pub fn complete(&mut self, id: usize, raw: i32) -> (w: Option<TaskId>)
        requires
            old(self).wf(),
            id < old(self).num_slots(),
            occupies(old(self).slot(id as int)),
        ensures
            final(self).wf(),
            final(self).num_slots() == old(self).num_slots(),
            final(self).capacity() == old(self).capacity(),
            final(self).in_flight() == old(self).in_flight() - 1,
            old(self).slot(id as int) matches SlotState::Pending { waker } ==> {
                &&& w == waker
                &&& final(self).slot(id as int) == (SlotState::Completed { raw })
                &&& final(self).desc_at(id as int) == old(self).desc_at(id as int)
            },
            old(self).slot(id as int) is Cancelled ==> {
                &&& w is None
                &&& final(self).slot(id as int) is Consumed
                &&& final(self).desc_at(id as int) is None
            },
            forall|j: int|
                0 <= j < old(self).num_slots() && j != id ==> final(self).slot(j) == old(
                    self,
                ).slot(j) && final(self).desc_at(j) == old(self).desc_at(j),
    {
        let ghost pre = self.slots@.map_values(|s: Slot| s.state);
        let w;
        match self.slots[id].state {
            SlotState::Pending { waker } => {
                w = waker;
                self.slots[id].state = SlotState::Completed { raw };
                proof {
                    lemma_count_update(pre, id as int, SlotState::Completed { raw });
                    assert(self.slots@.map_values(|s: Slot| s.state) =~= pre.update(
                        id as int,
                        SlotState::Completed { raw },
                    ));
                }
            },
            _ => {
                w = None;
                self.slots[id].state = SlotState::Consumed;
                self.slots[id].desc = None;
                proof {
                    lemma_count_update(pre, id as int, SlotState::Consumed);
                    assert(self.slots@.map_values(|s: Slot| s.state) =~= pre.update(
                        id as int,
                        SlotState::Consumed,
                    ));
                }
            },
        }
        self.in_flight = self.in_flight - 1;
        w
    }

    /// Takes the raw result and the descriptor — with its bound buffers — out
    /// of a completed slot. The kernel may have filled the write-target
    /// buffers of a read, accept or fstat while the operation was in flight,
    /// outside the reach of these contracts, so only the descriptor's shape is
    /// promised.
    pub fn consume(&mut self, id: usize) -> (r: (i32, SubmissionDescriptor))
        requires
            old(self).wf(),
            id < old(self).num_slots(),
            old(self).slot(id as int) is Completed,
        ensures
            final(self).wf(),
            final(self).num_slots() == old(self).num_slots(),
            final(self).capacity() == old(self).capacity(),
            final(self).in_flight() == old(self).in_flight(),
            r.0 == old(self).slot(id as int)->Completed_raw,
            consume_shape(old(self).desc_at(id as int)->Some_0, r.1),
            final(self).slot(id as int) is Consumed,
            final(self).desc_at(id as int) is None,
            forall|j: int|
                0 <= j < old(self).num_slots() && j != id ==> final(self).slot(j) == old(
                    self,
                ).slot(j) && final(self).desc_at(j) == old(self).desc_at(j),
    {
        let ghost pre = self.slots@.map_values(|s: Slot| s.state);
        let raw = match self.slots[id].state {
            SlotState::Completed { raw } => raw,
            _ => 0,
        };
        let d = self.slots[id].desc.take();
        self.slots[id].state = SlotState::Consumed;
        proof {
            lemma_count_update(pre, id as int, SlotState::Consumed);
            assert(self.slots@.map_values(|s: Slot| s.state) =~= pre.update(
                id as int,
                SlotState::Consumed,
            ));
        }
        match d {
            Some(desc) => (raw, desc),
            None => unreached(),
        }
    }

    /// Drains a batch of completion events the external event loop read from
    /// the kernel: delivers each to its slot and returns the wakers to
    /// invoke, one per woken operation, in delivery order. Exactly the named
    /// operations move on; every other slot is untouched. Completions arrive
    /// in kernel-determined order, so the batch may name its operations in
    /// any order, but at most once each: a second completion for one
    /// operation is a protocol violation.
    pub fn drive(&mut self, events: &Vec<CompletionEvent>) -> (wakes: Vec<TaskId>)
        requires
            old(self).wf(),
            forall|i: int|
                0 <= i < events@.len() ==> (#[trigger] events@[i]).id < old(self).num_slots()
                    && occupies(old(self).slot(events@[i].id as int)),
            forall|i: int, j: int|
                0 <= i < j < events@.len() ==> events@[i].id != events@[j].id,
        ensures
            final(self).wf(),
            final(self).num_slots() == old(self).num_slots(),
            final(self).capacity() == old(self).capacity(),
            final(self).in_flight() == old(self).in_flight() - events@.len(),
            wakes@ == drive_wakes(*old(self), events@),
            forall|i: int|
                0 <= i < events@.len() ==> ((old(self).slot((#[trigger] events@[i]).id as int))
                    is Pending ==> final(self).slot(events@[i].id as int) == (
                SlotState::Completed { raw: events@[i].raw }) && final(self).desc_at(
                    events@[i].id as int,
                ) == old(self).desc_at(events@[i].id as int)),
            forall|i: int|
                0 <= i < events@.len() ==> ((old(self).slot((#[trigger] events@[i]).id as int))
                    is Cancelled ==> final(self).slot(events@[i].id as int) is Consumed
                    && final(self).desc_at(events@[i].id as int) is None),
            forall|j: int|
                0 <= j < old(self).num_slots() && (forall|i: int|
                    0 <= i < events@.len() ==> (#[trigger] events@[i]).id != j)
                    ==> #[trigger] final(self).slot(j) == old(self).slot(j)
                    && final(self).desc_at(j) == old(self).desc_at(j),
    {
        let ghost pre = *self;
        let mut wakes: Vec<TaskId> = Vec::new();
        let mut k: usize = 0;
        proof {
            assert(events@.skip(0) =~= events@);
            assert(wakes@ + drive_wakes(pre, events@) =~= drive_wakes(pre, events@));
        }
        while k < events.len()
            invariant
                pre == *old(self),
                pre.wf(),
                k <= events@.len(),
                forall|i: int|
                    0 <= i < events@.len() ==> (#[trigger] events@[i]).id < pre.num_slots()
                        && occupies(pre.slot(events@[i].id as int)),
                forall|i: int, j: int|
                    0 <= i < j < events@.len() ==> events@[i].id != events@[j].id,
                self.wf(),
                self.num_slots() == pre.num_slots(),
                self.capacity() == pre.capacity(),
                self.in_flight() == pre.in_flight() - k,
                drive_wakes(pre, events@) == wakes@ + drive_wakes(pre, events@.skip(k as int)),
                forall|i: int|
                    0 <= i < k ==> (pre.slot(
                        (#[trigger] events@[i]).id as int,
                    ) is Pending ==> self.slot(events@[i].id as int) == (SlotState::Completed {
                        raw: events@[i].raw,
                    }) && self.desc_at(events@[i].id as int) == pre.desc_at(events@[i].id as int)),
                forall|i: int|
                    0 <= i < k ==> (pre.slot(
                        (#[trigger] events@[i]).id as int,
                    ) is Cancelled ==> self.slot(events@[i].id as int) is Consumed && self.desc_at(
                        events@[i].id as int,
                    ) is None),
                forall|i: int|
                    k <= i < events@.len() ==> #[trigger] self.slot(events@[i].id as int)
                        == pre.slot(events@[i].id as int) && self.desc_at(events@[i].id as int)
                        == pre.desc_at(events@[i].id as int),
                forall|j: int|
                    0 <= j < pre.num_slots() && (forall|i: int|
                        0 <= i < events@.len() ==> (#[trigger] events@[i]).id != j)
                        ==> #[trigger] self.slot(j) == pre.slot(j) && self.desc_at(j) == pre.desc_at(
                        j,
                    ),
            decreases events@.len() - k,
        {
            let e = events[k];
            let ghost suffix = events@.skip(k as int);
            let w = self.complete(e.id, e.raw);
            match w {
                Some(t) => wakes.push(t),
                None => {},
            }
            proof {
                assert(suffix[0] == events@[k as int]);
                assert(suffix.skip(1) =~= events@.skip(k as int + 1));
            }
            k = k + 1;
        }
        proof {
            assert(events@.skip(k as int) =~= Seq::<CompletionEvent>::empty());
            assert(wakes@ =~= wakes@ + drive_wakes(pre, events@.skip(k as int)));
        }
        wakes
    }

    /// Detaches a discarded future's operation from its slot. An in-flight
    /// operation becomes `Cancelled`: its descriptor — and so its buffers —
    /// stays driver-owned until the kernel confirms with a completion. An
    /// already-completed operation's descriptor is dropped at once.
    pub fn detach(&mut self, id: usize)
        requires
            old(self).wf(),
            id < old(self).num_slots(),
            old(self).slot(id as int) is Pending || old(self).slot(id as int) is Completed,
        ensures
            final(self).wf(),
            final(self).num_slots() == old(self).num_slots(),
            final(self).capacity() == old(self).capacity(),
            final(self).in_flight() == old(self).in_flight(),
            old(self).slot(id as int) is Pending ==> final(self).slot(id as int) is Cancelled
                && final(self).desc_at(id as int) == old(self).desc_at(id as int),
            old(self).slot(id as int) is Completed ==> final(self).slot(id as int) is Consumed
                && final(self).desc_at(id as int) is None,
            forall|j: int|
                0 <= j < old(self).num_slots() && j != id ==> final(self).slot(j) == old(
                    self,
                ).slot(j) && final(self).desc_at(j) == old(self).desc_at(j),
    {
        let ghost pre = self.slots@.map_values(|s: Slot| s.state);
        match self.slots[id].state {
            SlotState::Pending { .. } => {
                self.slots[id].state = SlotState::Cancelled;
                proof {
                    lemma_count_update(pre, id as int, SlotState::Cancelled);
                    assert(self.slots@.map_values(|s: Slot| s.state) =~= pre.update(
                        id as int,
                        SlotState::Cancelled,
                    ));
                }
            },
            _ => {
                self.slots[id].state = SlotState::Consumed;
                self.slots[id].desc = None;
                proof {
                    lemma_count_update(pre, id as int, SlotState::Consumed);
                    assert(self.slots@.map_values(|s: Slot| s.state) =~= pre.update(
                        id as int,
                        SlotState::Consumed,
                    ));
                }
            },
        }
    }
}

} // verus!
