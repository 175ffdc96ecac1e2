//! Operation descriptors, the per-operation future protocol, and the typed
//! operation constructors.
//!
//! A descriptor is an immutable, opcode-tagged encoding of one operation
//! request. Every buffer an operation binds — a read destination, a write
//! source, the kernel-filled peer-address record of an accept, the stat record
//! of an fstat — is owned by the descriptor: it moves into the driver at
//! submission, stays there for the whole in-flight interval, and comes back
//! with the result. No other code can touch it while the kernel may.

use vstd::prelude::*;

use crate::driver::{Driver, SlotState, TaskId};
use crate::error::ErrorKind;

verus! {

/// An immutable, opcode-tagged operation request.
///
/// File and socket descriptors are plain numbers here; peer addresses are the
/// opaque byte records an external address codec produces and consumes.
#[derive(Debug, PartialEq, Eq)]
pub enum SubmissionDescriptor {
    /// Accept a connection; the kernel fills `addr` with the peer's address.
    Accept { fd: i32, addr: Vec<u8> },
    /// Connect `fd` to the encoded address `addr`.
    Connect { fd: i32, addr: Vec<u8> },
    /// Open the NUL-terminated path with the given flags and mode.
    Open { path_nul: Vec<u8>, flags: i32, mode: u32 },
    /// Close a descriptor.
    Close { fd: i32 },
    /// Read into `buf`; the kernel fills a prefix of it.
    Read { fd: i32, buf: Vec<u8> },
    /// Write the bytes of `buf`.
    Write { fd: i32, buf: Vec<u8> },
    /// Query file metadata; the kernel fills the `stat` record.
    Fstat { fd: i32, stat: Vec<u8> },
    /// Flush a descriptor; `data_only` restricts the sync to file data.
    Fsync { fd: i32, data_only: bool },
}

/// How a descriptor relates to itself across its in-flight interval: the
/// kernel may fill the write-target buffers of a read, accept or fstat, so
/// only their length is promised; every other descriptor comes back as it
/// went in.
pub open spec fn consume_shape(pre: SubmissionDescriptor, post: SubmissionDescriptor) -> bool {
    match pre {
        SubmissionDescriptor::Accept { fd, addr } => {
            &&& post matches SubmissionDescriptor::Accept { fd: f2, addr: a2 }
            &&& f2 == fd
            &&& a2@.len() == addr@.len()
        },
        SubmissionDescriptor::Read { fd, buf } => {
            &&& post matches SubmissionDescriptor::Read { fd: f2, buf: b2 }
            &&& f2 == fd
            &&& b2@.len() == buf@.len()
        },
        SubmissionDescriptor::Fstat { fd, stat } => {
            &&& post matches SubmissionDescriptor::Fstat { fd: f2, stat: s2 }
            &&& f2 == fd
            &&& s2@.len() == stat@.len()
        },
        _ => post == pre,
    }
}

/// The buffer a descriptor binds for its operation, if any: the memory the
/// kernel will read or fill, which the submission boundary encodes into the
/// kernel's entry format by address and length.
pub open spec fn bound_bytes(d: SubmissionDescriptor) -> Option<Seq<u8>> {
    match d {
        SubmissionDescriptor::Accept { addr, .. } => Some(addr@),
        SubmissionDescriptor::Connect { addr, .. } => Some(addr@),
        SubmissionDescriptor::Open { path_nul, .. } => Some(path_nul@),
        SubmissionDescriptor::Close { .. } => None,
        SubmissionDescriptor::Read { buf, .. } => Some(buf@),
        SubmissionDescriptor::Write { buf, .. } => Some(buf@),
        SubmissionDescriptor::Fstat { stat, .. } => Some(stat@),
        SubmissionDescriptor::Fsync { .. } => None,
    }
}

/// The typed result of one resolved operation, with every bound buffer handed
/// back to the caller.
#[derive(Debug, PartialEq, Eq)]
pub enum OpOutput {
    /// A new connection and the kernel-filled peer-address record.
    Accepted { fd: i32, addr: Vec<u8> },
    Connected,
    /// The descriptor of the opened file.
    Opened { fd: i32 },
    Closed,
    /// How many bytes were transferred — `0` conventionally signals end of
    /// stream — and the buffer they were read into.
    ReadBytes { n: usize, buf: Vec<u8> },
    /// How many bytes were transferred, and the source buffer.
    Wrote { n: usize, buf: Vec<u8> },
    /// The kernel-filled stat record.
    Stat { stat: Vec<u8> },
    Synced,
}

/// The raw-result mapping table: a negative raw result is an OS-coded failure
/// whatever the operation; a non-negative one maps per opcode.
pub open spec fn interpret_post(
    desc: SubmissionDescriptor,
    raw: i32,
    r: Result<OpOutput, ErrorKind>,
) -> bool {
    if raw < 0 {
        r == Err::<OpOutput, ErrorKind>(ErrorKind::Os(raw))
    } else {
        match desc {
            SubmissionDescriptor::Accept { fd, addr } => r == Ok::<OpOutput, ErrorKind>(
                OpOutput::Accepted { fd: raw, addr },
            ),
            SubmissionDescriptor::Connect { .. } => r == Ok::<OpOutput, ErrorKind>(
                OpOutput::Connected,
            ),
            SubmissionDescriptor::Open { .. } => r == Ok::<OpOutput, ErrorKind>(
                OpOutput::Opened { fd: raw },
            ),
            SubmissionDescriptor::Close { .. } => r == Ok::<OpOutput, ErrorKind>(OpOutput::Closed),
            SubmissionDescriptor::Read { fd, buf } => r == Ok::<OpOutput, ErrorKind>(
                OpOutput::ReadBytes { n: raw as usize, buf },
            ),
            SubmissionDescriptor::Write { fd, buf } => r == Ok::<OpOutput, ErrorKind>(
                OpOutput::Wrote { n: raw as usize, buf },
            ),
            SubmissionDescriptor::Fstat { fd, stat } => r == Ok::<OpOutput, ErrorKind>(
                OpOutput::Stat { stat },
            ),
            SubmissionDescriptor::Fsync { .. } => r == Ok::<OpOutput, ErrorKind>(OpOutput::Synced),
        }
    }
}

/// Maps the raw numeric result the kernel delivered for `desc` to the
/// operation's typed result, handing the descriptor's buffers back inside it.
pub fn interpret(desc: SubmissionDescriptor, raw: i32) -> (r: Result<OpOutput, ErrorKind>)
    ensures
        interpret_post(desc, raw, r),
{
    if raw < 0 {
        return Err(ErrorKind::Os(raw));
    }
    match desc {
        SubmissionDescriptor::Accept { fd: _, addr } => Ok(OpOutput::Accepted { fd: raw, addr }),
        SubmissionDescriptor::Connect { .. } => Ok(OpOutput::Connected),
        SubmissionDescriptor::Open { .. } => Ok(OpOutput::Opened { fd: raw }),
        SubmissionDescriptor::Close { .. } => Ok(OpOutput::Closed),
        SubmissionDescriptor::Read { fd: _, buf } => Ok(
            OpOutput::ReadBytes { n: raw as usize, buf },
        ),
        SubmissionDescriptor::Write { fd: _, buf } => Ok(OpOutput::Wrote { n: raw as usize, buf }),
        SubmissionDescriptor::Fstat { fd: _, stat } => Ok(OpOutput::Stat { stat }),
        SubmissionDescriptor::Fsync { .. } => Ok(OpOutput::Synced),
    }
}

/// What the resolving poll promises about its typed result, given the
/// descriptor as it was submitted: the kernel fills the write-target buffers
/// of a read, accept or fstat while the operation is in flight, outside the
/// reach of these contracts, so for those only the returned buffer's length is
/// pinned; everything else is exact.
pub open spec fn resolve_post(
    desc: SubmissionDescriptor,
    raw: i32,
    r: Result<OpOutput, ErrorKind>,
) -> bool {
    if raw < 0 {
        r == Err::<OpOutput, ErrorKind>(ErrorKind::Os(raw))
    } else {
        match desc {
            SubmissionDescriptor::Accept { fd, addr } => {
                &&& r matches Ok(OpOutput::Accepted { fd: f2, addr: a2 })
                &&& f2 == raw
                &&& a2@.len() == addr@.len()
            },
            SubmissionDescriptor::Read { fd, buf } => {
                &&& r matches Ok(OpOutput::ReadBytes { n, buf: b2 })
                &&& n == raw as usize
                &&& b2@.len() == buf@.len()
            },
            SubmissionDescriptor::Fstat { fd, stat } => {
                &&& r matches Ok(OpOutput::Stat { stat: s2 })
                &&& s2@.len() == stat@.len()
            },
            _ => interpret_post(desc, raw, r),
        }
    }
}

/// The observable protocol state of one operation's future.
///
/// The specified protocol passes through a transient `Ready(raw_result)` stage
/// between `Pending` and `Consumed`; here that stage is the raw-result mapping
/// step [`interpret`], performed inside the resolving poll, so it never
/// outlives a poll call.
pub enum OpState {
    /// Built, not yet handed to a driver; holds the descriptor and its
    /// buffers.
    NotSubmitted { desc: SubmissionDescriptor },
    /// In flight under the given operation identifier; the driver holds the
    /// descriptor.
    Pending { id: usize },
    /// Resolved; reusing the future is a caller error and left out by
    /// contract.
    Consumed,
}

/// What one poll call reports to the executor.
#[derive(Debug, PartialEq, Eq)]
pub enum PollOutcome {
    /// The descriptor was handed to the driver just now under this operation
    /// identifier; the caller suspends, and the executor's event loop must
    /// relay the submission to the kernel.
    Submitted { id: usize },
    /// Still in flight; the current waker is registered and the caller
    /// suspends.
    Suspended,
    /// The operation resolved to its typed result.
    Ready { result: Result<OpOutput, ErrorKind> },
}

/// One operation tracked from submission to consumption.
pub struct OpFuture {
    state: OpState,
}

impl OpFuture {
    /// The protocol state of this future.
    pub closed spec fn state(&self) -> OpState {
        self.state
    }

    /// How this future's state is tied to the driver it is polled against: a
    /// pending operation names a live slot that is pending or completed.
    /// Established by the submitting poll and preserved by the driver's
    /// methods for every foreign slot.
    pub open spec fn consistent(&self, d: &Driver) -> bool {
        match self.state() {
            OpState::Pending { id } => {
                &&& id < d.num_slots()
                &&& (d.slot(id as int) is Pending || d.slot(id as int) is Completed)
                &&& d.desc_at(id as int) is Some
            },
            _ => true,
        }
    }

    /// Whether this future has resolved; polling it again would be misuse.
    pub fn is_consumed(&self) -> (r: bool)
        ensures
            r == (self.state() is Consumed),
    {
        match self.state {
            OpState::Consumed => true,
            _ => false,
        }
    }

    /// The operation identifier, once the operation is in flight.
    pub fn op_id(&self) -> (r: Option<usize>)
        ensures
            r == (match self.state() {
                OpState::Pending { id } => Some(id),
                _ => None::<usize>,
            }),
    {
        match self.state {
            OpState::Pending { id } => Some(id),
            _ => None,
        }
    }

    /// One step of the per-operation protocol.
    ///
    /// - Not yet submitted: submits; on success the future suspends in flight,
    ///   a capacity failure resolves it at once with `ResourceExhausted`,
    ///   without suspending.
    /// - In flight, completion not yet delivered: re-registers `task` as the
    ///   slot's waker — replacing any earlier one — and suspends.
    /// - In flight, completion delivered: consumes the raw result, maps it per
    ///   the result table, and resolves.
    pub fn poll(&mut self, d: &mut Driver, task: TaskId) -> (r: PollOutcome)
        requires
            old(d).wf(),
            !(old(self).state() is Consumed),
            old(self).consistent(old(d)),
        ensures
            final(d).wf(),
            final(self).consistent(final(d)),
            final(d).capacity() == old(d).capacity(),
            old(self).state() matches OpState::NotSubmitted { desc } ==> if old(d).in_flight()
                < old(d).capacity() {
                &&& r matches PollOutcome::Submitted { id } && id == old(d).num_slots()
                &&& final(self).state() == (OpState::Pending { id: old(d).num_slots() as usize })
                &&& final(d).num_slots() == old(d).num_slots() + 1
                &&& final(d).in_flight() == old(d).in_flight() + 1
                &&& final(d).slot(old(d).num_slots() as int) == (SlotState::Pending {
                    waker: Some(task),
                })
                &&& final(d).desc_at(old(d).num_slots() as int) == Some(desc)
                &&& forall|j: int|
                    0 <= j < old(d).num_slots() ==> final(d).slot(j) == old(d).slot(j)
                        && final(d).desc_at(j) == old(d).desc_at(j)
            } else {
                &&& r == (PollOutcome::Ready {
                    result: Err::<OpOutput, ErrorKind>(ErrorKind::ResourceExhausted),
                })
                &&& final(self).state() is Consumed
                &&& *final(d) == *old(d)
            },
            old(self).state() matches OpState::Pending { id } ==> {
                &&& final(d).num_slots() == old(d).num_slots()
                &&& (forall|j: int|
                    0 <= j < old(d).num_slots() && j != id ==> final(d).slot(j) == old(d).slot(j)
                        && final(d).desc_at(j) == old(d).desc_at(j))
                &&& match old(d).slot(id as int) {
                    SlotState::Pending { .. } => {
                        &&& r is Suspended
                        &&& final(self).state() == old(self).state()
                        &&& final(d).in_flight() == old(d).in_flight()
                        &&& final(d).slot(id as int) == (SlotState::Pending { waker: Some(task) })
                        &&& final(d).desc_at(id as int) == old(d).desc_at(id as int)
                    },
                    SlotState::Completed { raw } => {
                        &&& r matches PollOutcome::Ready { result }
                        &&& resolve_post(old(d).desc_at(id as int)->Some_0, raw, result)
                        &&& final(self).state() is Consumed
                        &&& final(d).slot(id as int) is Consumed
                        &&& final(d).desc_at(id as int) is None
                        &&& final(d).in_flight() == old(d).in_flight()
                    },
                    _ => false,
                }
            },
    {
        let mut st = OpState::Consumed;
        core::mem::swap(&mut st, &mut self.state);
        match st {
            OpState::NotSubmitted { desc } => {
                match d.submit(desc, Some(task)) {
                    Ok(id) => {
                        self.state = OpState::Pending { id };
                        PollOutcome::Submitted { id }
                    },
                    Err(_) => {
                        PollOutcome::Ready { result: Err(ErrorKind::ResourceExhausted) }
                    },
                }
            },
            OpState::Pending { id } => {
                match d.completion(id) {
                    None => {
                        d.register_waker(id, task);
                        self.state = OpState::Pending { id };
                        PollOutcome::Suspended
                    },
                    Some(_) => {
                        let (raw, desc) = d.consume(id);
                        let result = interpret(desc, raw);
                        PollOutcome::Ready { result }
                    },
                }
            },
            OpState::Consumed => {
                proof {
                    assert(false);
                }
                PollOutcome::Suspended
            },
        }
    }

    /// Releases a future that is being discarded. An in-flight operation's
    /// slot becomes cancelled and its buffers stay driver-owned until the
    /// kernel confirms the cancellation with a completion — they are never
    /// freed while the kernel may still write to them; an unsubmitted or
    /// already-completed operation's buffers are dropped at once.
    pub fn cancel(self, d: &mut Driver)
        requires
            old(d).wf(),
            self.consistent(old(d)),
        ensures
            final(d).wf(),
            final(d).num_slots() == old(d).num_slots(),
            final(d).capacity() == old(d).capacity(),
            final(d).in_flight() == old(d).in_flight(),
            self.state() matches OpState::Pending { id } ==> {
                &&& (old(d).slot(id as int) is Pending ==> final(d).slot(id as int) is Cancelled
                    && final(d).desc_at(id as int) == old(d).desc_at(id as int))
                &&& (old(d).slot(id as int) is Completed ==> final(d).slot(id as int) is Consumed
                    && final(d).desc_at(id as int) is None)
                &&& forall|j: int|
                    0 <= j < old(d).num_slots() && j != id ==> final(d).slot(j) == old(d).slot(j)
                        && final(d).desc_at(j) == old(d).desc_at(j)
            },
            !(self.state() is Pending) ==> *final(d) == *old(d),
    {
        match self.state {
            OpState::Pending { id } => {
                d.detach(id);
            },
            _ => {},
        }
    }
}

/// A helper: a zero-filled buffer of the given length, standing for a record
/// the kernel will fill.
fn zeroed(len: usize) -> (r: Vec<u8>)
    ensures
        r@.len() == len,
        forall|i: int| 0 <= i < len ==> r@[i] == 0u8,
{
    let r = vec![0u8; len];
    r
}

/// Accepts a connection on `fd`. The kernel fills a zeroed, caller-sized
/// record with the peer's address; the resolved result hands it back for an
/// external address codec to decode.
pub fn accept(fd: i32, addr_capacity: usize) -> (f: OpFuture)
    ensures
        f.state() matches OpState::NotSubmitted { desc } && desc matches
            SubmissionDescriptor::Accept { fd: f2, addr } && f2 == fd && addr@ == Seq::new(
            addr_capacity as nat,
            |i: int| 0u8,
        ),
{
    let addr = zeroed(addr_capacity);
    proof {
        assert(addr@ =~= Seq::new(addr_capacity as nat, |i: int| 0u8));
    }
    OpFuture { state: OpState::NotSubmitted { desc: SubmissionDescriptor::Accept { fd, addr } } }
}

/// Connects `fd` to the externally encoded address `addr`.
pub fn connect(fd: i32, addr: Vec<u8>) -> (f: OpFuture)
    ensures
        f.state() matches OpState::NotSubmitted { desc } && desc == (SubmissionDescriptor::Connect {
            fd,
            addr,
        }),
{
    OpFuture { state: OpState::NotSubmitted { desc: SubmissionDescriptor::Connect { fd, addr } } }
}

/// Opens the file at `path` with the given flags and mode.
///
/// The path is converted to its NUL-terminated byte form before any
/// submission; a path with an embedded NUL byte fails at once with
/// `InvalidFilename`, and no submission ever takes place — no future exists to
/// submit one.
pub fn open(path: Vec<u8>, flags: i32, mode: u32) -> (r: Result<OpFuture, ErrorKind>)
    ensures
        (r is Ok) <==> !path@.contains(0u8),
        r matches Ok(f) ==> f.state() matches OpState::NotSubmitted { desc } && desc matches
            SubmissionDescriptor::Open { path_nul, flags: fl, mode: m } && path_nul@ == path@.push(
            0u8,
        ) && fl == flags && m == mode,
        r matches Err(e) ==> e == ErrorKind::InvalidFilename,
{
    let mut i: usize = 0;
    while i < path.len()
        invariant
            i <= path@.len(),
            forall|j: int| 0 <= j < i ==> path@[j] != 0u8,
        decreases path@.len() - i,
    {
        if path[i] == 0u8 {
            return Err(ErrorKind::InvalidFilename);
        }
        i = i + 1;
    }
    let mut path_nul = path;
    path_nul.push(0u8);
    Ok(
        OpFuture {
            state: OpState::NotSubmitted {
                desc: SubmissionDescriptor::Open { path_nul, flags, mode },
            },
        },
    )
}

/// Closes `fd`.
pub fn close(fd: i32) -> (f: OpFuture)
    ensures
        f.state() matches OpState::NotSubmitted { desc } && desc == (SubmissionDescriptor::Close {
            fd,
        }),
{
    OpFuture { state: OpState::NotSubmitted { desc: SubmissionDescriptor::Close { fd } } }
}

/// Reads into `buf` from `fd`; the future owns `buf` for the whole in-flight
/// interval and hands it back, its prefix kernel-filled, in the result.
pub fn read(fd: i32, buf: Vec<u8>) -> (f: OpFuture)
    ensures
        f.state() matches OpState::NotSubmitted { desc } && desc == (SubmissionDescriptor::Read {
            fd,
            buf,
        }),
{
    OpFuture { state: OpState::NotSubmitted { desc: SubmissionDescriptor::Read { fd, buf } } }
}

/// Writes the bytes of `buf` to `fd`; the future owns `buf` for the whole
/// in-flight interval and hands it back in the result.
pub fn write(fd: i32, buf: Vec<u8>) -> (f: OpFuture)
    ensures
        f.state() matches OpState::NotSubmitted { desc } && desc == (SubmissionDescriptor::Write {
            fd,
            buf,
        }),
{
    OpFuture { state: OpState::NotSubmitted { desc: SubmissionDescriptor::Write { fd, buf } } }
}

/// Queries metadata of `fd`. The kernel fills a zeroed, caller-sized stat
/// record, handed back in the result for an external decoder.
pub fn fstat(fd: i32, stat_capacity: usize) -> (f: OpFuture)
    ensures
        f.state() matches OpState::NotSubmitted { desc } && desc matches
            SubmissionDescriptor::Fstat { fd: f2, stat } && f2 == fd && stat@ == Seq::new(
            stat_capacity as nat,
            |i: int| 0u8,
        ),
{
    let stat = zeroed(stat_capacity);
    proof {
        assert(stat@ =~= Seq::new(stat_capacity as nat, |i: int| 0u8));
    }
    OpFuture { state: OpState::NotSubmitted { desc: SubmissionDescriptor::Fstat { fd, stat } } }
}

/// Flushes `fd`, data and metadata.
pub fn fsync(fd: i32) -> (f: OpFuture)
    ensures
        f.state() matches OpState::NotSubmitted { desc } && desc == (SubmissionDescriptor::Fsync {
            fd,
            data_only: false,
        }),
{
    OpFuture {
        state: OpState::NotSubmitted { desc: SubmissionDescriptor::Fsync { fd, data_only: false } },
    }
}

/// Flushes `fd`, file data only: the same operation as [`fsync`] with the
/// data-only flag set.
pub fn fdatasync(fd: i32) -> (f: OpFuture)
    ensures
        f.state() matches OpState::NotSubmitted { desc } && desc == (SubmissionDescriptor::Fsync {
            fd,
            data_only: true,
        }),
{
    OpFuture {
        state: OpState::NotSubmitted { desc: SubmissionDescriptor::Fsync { fd, data_only: true } },
    }
}

} // verus!
