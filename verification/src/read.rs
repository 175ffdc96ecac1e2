//! Sequential and positional read capabilities, and exact-length read loops.
//!
//! A source is modelled by the sequence of outcomes ([`SubRead`]) it will hand
//! to successive read attempts. [`exact_run`] states, once and for all, what an
//! exact-length read loop does against such a source: which bytes land in the
//! destination window, whether the loop succeeds, how many outcomes it
//! consumes, and at which positions the attempts are issued. The extension
//! traits [`ReadExt`] and [`ReadAtExt`] are implemented for every implementer
//! of the single-shot capability and proved against that statement.

use vstd::prelude::*;

use crate::error::ErrorKind;

verus! {

/// One outcome a source can hand to a single read attempt: some bytes
/// (possibly none, signalling end of stream), or a failure.
pub ghost enum SubRead {
    Data(Seq<u8>),
    Fail(ErrorKind),
}

/// What one whole exact-length read run does against a source.
pub ghost struct ReadRun {
    /// Success, or the first propagated error.
    pub outcome: Result<(), ErrorKind>,
    /// The bytes written into the destination window, in order.
    pub filled: Seq<u8>,
    /// How many outcomes of the source the run consumed.
    pub consumed: nat,
    /// The position handed to each read attempt, oldest first.
    pub positions: Seq<int>,
}

/// The exact-length read loop, as a function of the source's outcome sequence:
/// `need` bytes are missing and the next attempt is issued at `pos`.
///
/// A zero-byte outcome while bytes are missing is end of stream, not success;
/// an exhausted script reads as end of stream as well. An `Interrupted`
/// failure is absorbed: the next attempt is issued at the unchanged position.
/// Any other failure stops the run at once.
pub open spec fn exact_run(script: Seq<SubRead>, need: nat, pos: int) -> ReadRun
    decreases script.len(),
{
    if need == 0 {
        ReadRun {
            outcome: Ok(()),
            filled: Seq::empty(),
            consumed: 0,
            positions: Seq::empty(),
        }
    } else if script.len() == 0 {
        ReadRun {
            outcome: Err(ErrorKind::UnexpectedEof),
            filled: Seq::empty(),
            consumed: 0,
            positions: seq![pos],
        }
    } else {
        match script[0] {
            SubRead::Data(d) => {
                let n = vstd::math::min(d.len() as int, need as int);
                if n == 0 {
                    ReadRun {
                        outcome: Err(ErrorKind::UnexpectedEof),
                        filled: Seq::empty(),
                        consumed: 1,
                        positions: seq![pos],
                    }
                } else {
                    let rest = exact_run(script.skip(1), (need - n) as nat, pos + n);
                    ReadRun {
                        outcome: rest.outcome,
                        filled: d.take(n) + rest.filled,
                        consumed: 1 + rest.consumed,
                        positions: seq![pos] + rest.positions,
                    }
                }
            },
            SubRead::Fail(k) => {
                if k == ErrorKind::Interrupted {
                    let rest = exact_run(script.skip(1), need, pos);
                    ReadRun {
                        outcome: rest.outcome,
                        filled: rest.filled,
                        consumed: 1 + rest.consumed,
                        positions: seq![pos] + rest.positions,
                    }
                } else {
                    ReadRun {
                        outcome: Err(k),
                        filled: Seq::empty(),
                        consumed: 1,
                        positions: seq![pos],
                    }
                }
            },
        }
    }
}

/// What one single read attempt into `b0[start..]` does: the head outcome of
/// `pre` decides the result, the bytes outside the written range stay as they
/// were, and the source moves past the consumed outcome.
pub open spec fn read_post(
    pre: Seq<SubRead>,
    post: Seq<SubRead>,
    b0: Seq<u8>,
    b1: Seq<u8>,
    start: int,
    r: Result<usize, ErrorKind>,
) -> bool {
    let space = b0.len() - start;
    if pre.len() == 0 {
        &&& post == pre
        &&& b1 == b0
        &&& r == Ok::<usize, ErrorKind>(0)
    } else {
        &&& post == pre.skip(1)
        &&& match pre[0] {
            SubRead::Data(d) => {
                let n = vstd::math::min(d.len() as int, space);
                &&& (r matches Ok(m) && m == n)
                &&& b1.len() == b0.len()
                &&& (forall|i: int| 0 <= i < start ==> b1[i] == b0[i])
                &&& (forall|i: int| 0 <= i < n ==> b1[start + i] == d[i])
                &&& (forall|i: int| start + n <= i < b1.len() ==> b1[i] == b0[i])
            },
            SubRead::Fail(k) => {
                &&& r == Err::<usize, ErrorKind>(k)
                &&& b1 == b0
            },
        }
    }
}

/// What a whole exact-length read into `b0[start..]` does, stated through
/// [`exact_run`] on the source's outcome sequence at position `pos`.
pub open spec fn read_exact_post(
    pre: Seq<SubRead>,
    post: Seq<SubRead>,
    b0: Seq<u8>,
    b1: Seq<u8>,
    start: int,
    pos: int,
    r: Result<(), ErrorKind>,
) -> bool {
    let need = (b0.len() - start) as nat;
    let run = exact_run(pre, need, pos);
    &&& post == pre.skip(run.consumed as int)
    &&& b1.len() == b0.len()
    &&& (forall|i: int| 0 <= i < start ==> b1[i] == b0[i])
    &&& (forall|i: int| 0 <= i < run.filled.len() ==> b1[start + i] == run.filled[i])
    &&& (forall|i: int| start + run.filled.len() <= i < b1.len() ==> b1[i] == b0[i])
    &&& r == run.outcome
}

/// Whether the run meets a zero-byte sub-read — or source exhaustion — while
/// bytes are still missing from the window.
pub open spec fn hits_short_eof(script: Seq<SubRead>, need: nat) -> bool
    decreases script.len(),
{
    if need == 0 {
        false
    } else if script.len() == 0 {
        true
    } else {
        match script[0] {
            SubRead::Data(d) => {
                let n = vstd::math::min(d.len() as int, need as int);
                if n == 0 {
                    true
                } else {
                    hits_short_eof(script.skip(1), (need - n) as nat)
                }
            },
            SubRead::Fail(k) => {
                if k == ErrorKind::Interrupted {
                    hits_short_eof(script.skip(1), need)
                } else {
                    false
                }
            },
        }
    }
}

/// Law: an exact-length read succeeds exactly when its sub-reads together
/// fill the whole window — the lengths handed over sum to the bytes missing —
/// and never writes past it.
pub proof fn lemma_exact_success_iff_window_filled(script: Seq<SubRead>, need: nat, pos: int)
    ensures
        exact_run(script, need, pos).filled.len() <= need,
        (exact_run(script, need, pos).outcome is Ok) <==> exact_run(
            script,
            need,
            pos,
        ).filled.len() == need,
    decreases script.len(),
{
    if need == 0 {
    } else if script.len() == 0 {
    } else {
        match script[0] {
            SubRead::Data(d) => {
                let n = vstd::math::min(d.len() as int, need as int);
                if n != 0 {
                    lemma_exact_success_iff_window_filled(script.skip(1), (need - n) as nat, pos + n);
                }
            },
            SubRead::Fail(k) => {
                if k == ErrorKind::Interrupted {
                    lemma_exact_success_iff_window_filled(script.skip(1), need, pos);
                }
            },
        }
    }
}

/// Law: an exact-length read ends in `UnexpectedEof` exactly when some
/// sub-read hands over zero bytes while bytes are still missing — provided the
/// source does not itself fail with that error, which would be propagated
/// indistinguishably.
pub proof fn lemma_eof_iff_short_read(script: Seq<SubRead>, need: nat, pos: int)
    requires
        forall|i: int|
            0 <= i < script.len() ==> script[i] != SubRead::Fail(ErrorKind::UnexpectedEof),
    ensures
        (exact_run(script, need, pos).outcome == Err::<(), ErrorKind>(ErrorKind::UnexpectedEof))
            <==> hits_short_eof(script, need),
    decreases script.len(),
{
    if need == 0 {
    } else if script.len() == 0 {
    } else {
        assert(script[0] != SubRead::Fail(ErrorKind::UnexpectedEof));
        assert(forall|i: int|
            0 <= i < script.skip(1).len() ==> script.skip(1)[i] == script[i + 1]);
        match script[0] {
            SubRead::Data(d) => {
                let n = vstd::math::min(d.len() as int, need as int);
                if n != 0 {
                    lemma_eof_iff_short_read(script.skip(1), (need - n) as nat, pos + n);
                }
            },
            SubRead::Fail(k) => {
                if k == ErrorKind::Interrupted {
                    lemma_eof_iff_short_read(script.skip(1), need, pos);
                }
            },
        }
    }
}

/// Law: the exact-length read loops absorb `Interrupted` failures: no run
/// ever surfaces that error.
pub proof fn lemma_interrupted_never_surfaces(script: Seq<SubRead>, need: nat, pos: int)
    ensures
        exact_run(script, need, pos).outcome != Err::<(), ErrorKind>(ErrorKind::Interrupted),
    decreases script.len(),
{
    if need == 0 {
    } else if script.len() == 0 {
    } else {
        match script[0] {
            SubRead::Data(d) => {
                let n = vstd::math::min(d.len() as int, need as int);
                if n != 0 {
                    lemma_interrupted_never_surfaces(script.skip(1), (need - n) as nat, pos + n);
                }
            },
            SubRead::Fail(k) => {
                if k == ErrorKind::Interrupted {
                    lemma_interrupted_never_surfaces(script.skip(1), need, pos);
                }
            },
        }
    }
}

/// Law: an `Interrupted` sub-read consumes nothing of the window: the next
/// attempt is issued at the unchanged position, and the bytes filled are
/// exactly those of the run without it — no byte is lost or duplicated across
/// the retry.
pub proof fn lemma_interrupted_retries_unchanged(script: Seq<SubRead>, need: nat, pos: int)
    requires
        need > 0,
        script.len() > 0,
        script[0] == SubRead::Fail(ErrorKind::Interrupted),
    ensures
        ({
            let run = exact_run(script, need, pos);
            let rest = exact_run(script.skip(1), need, pos);
            &&& run.outcome == rest.outcome
            &&& run.filled == rest.filled
            &&& run.positions == seq![pos] + rest.positions
        }),
{
}

/// Law: a sub-read that hands over `n > 0` bytes advances the next attempt's
/// position by exactly `n`, and contributes exactly those `n` bytes to the
/// window.
pub proof fn lemma_data_advances_position(script: Seq<SubRead>, need: nat, pos: int)
    requires
        need > 0,
        script.len() > 0,
        script[0] is Data,
        script[0]->Data_0.len() > 0,
    ensures
        ({
            let d = script[0]->Data_0;
            let n = vstd::math::min(d.len() as int, need as int);
            let run = exact_run(script, need, pos);
            let rest = exact_run(script.skip(1), (need - n) as nat, pos + n);
            &&& run.positions == seq![pos] + rest.positions
            &&& run.filled == d.take(n) + rest.filled
            &&& run.outcome == rest.outcome
        }),
{
}

/// Law: every run over a non-empty window issues its first attempt at the
/// requested position.
pub proof fn lemma_first_position(script: Seq<SubRead>, need: nat, pos: int)
    requires
        need > 0,
    ensures
        exact_run(script, need, pos).positions.len() > 0,
        exact_run(script, need, pos).positions[0] == pos,
{
}

/// A source of asynchronous sequential reads, single-shot.
///
/// `source_model` is the sequence of outcomes the source will hand to
/// successive reads; each read consumes its head. A source past the end of its
/// model reports end of stream forever.
pub trait Read {
    /// The outcomes this source will yield, in order.
    spec fn source_model(&self) -> Seq<SubRead>;

    /// Reads some bytes into `buf[start..]` and returns how many were read;
    /// `0` means end of stream or a zero-length window.
    fn read(&mut self, buf: &mut Vec<u8>, start: usize) -> (r: Result<usize, ErrorKind>)
        requires
            start <= old(buf).len(),
        ensures
            read_post(
                old(self).source_model(),
                final(self).source_model(),
                old(buf)@,
                final(buf)@,
                start as int,
                r,
            ),
    ;
}

/// Exact-length reads, available on every [`Read`] implementer.
pub trait ReadExt: Read {
    /// Fills `buf[start..]` completely, retrying `Interrupted` sub-reads at
    /// the unchanged window and failing with `UnexpectedEof` on a zero-byte
    /// sub-read while bytes are missing.
    fn read_exact(&mut self, buf: &mut Vec<u8>, start: usize) -> (r: Result<(), ErrorKind>)
        requires
            start <= old(buf).len(),
        ensures
            read_exact_post(
                old(self).source_model(),
                final(self).source_model(),
                old(buf)@,
                final(buf)@,
                start as int,
                0,
                r,
            ),
    ;
}

/// A source of asynchronous positional reads, single-shot.
///
/// Positional reads carry no implicit cursor: every attempt names its
/// position, and `positions_seen` records the position handed to each attempt
/// so far, oldest first.
pub trait ReadAt {
    /// The outcomes this source will yield, in order.
    spec fn source_model(&self) -> Seq<SubRead>;

    /// The positions handed to every read attempt so far, oldest first.
    spec fn positions_seen(&self) -> Seq<int>;

    /// Reads some bytes into `buf[start..]` at `pos` and returns how many
    /// were read; `0` means end of stream or a zero-length window.
    fn read_at(&mut self, buf: &mut Vec<u8>, start: usize, pos: u64) -> (r: Result<
        usize,
        ErrorKind,
    >)
        requires
            start <= old(buf).len(),
        ensures
            read_post(
                old(self).source_model(),
                final(self).source_model(),
                old(buf)@,
                final(buf)@,
                start as int,
                r,
            ),
            final(self).positions_seen() == old(self).positions_seen().push(pos as int),
    ;
}

/// Exact-length positional reads, available on every [`ReadAt`] implementer.
pub trait ReadAtExt: ReadAt {
    /// Fills `buf[start..]` completely with sub-reads at `pos`, `pos + n1`,
    /// `pos + n1 + n2`, …; an `Interrupted` sub-read is retried at the
    /// unchanged position, and a zero-byte sub-read while bytes are missing
    /// fails with `UnexpectedEof`.
    fn read_exact_at(&mut self, buf: &mut Vec<u8>, start: usize, pos: u64) -> (r: Result<
        (),
        ErrorKind,
    >)
        requires
            start <= old(buf).len(),
            pos + (old(buf).len() - start) <= u64::MAX,
        ensures
            read_exact_post(
                old(self).source_model(),
                final(self).source_model(),
                old(buf)@,
                final(buf)@,
                start as int,
                pos as int,
                r,
            ),
            final(self).positions_seen() == old(self).positions_seen() + exact_run(
                old(self).source_model(),
                (old(buf)@.len() - start) as nat,
                pos as int,
            ).positions,
    ;
}

impl<T: ReadAt> ReadAtExt for T {
    fn read_exact_at(&mut self, buf: &mut Vec<u8>, start: usize, pos: u64) -> (r: Result<
        (),
        ErrorKind,
    >) {
        let ghost pre = self.source_model();
        let ghost p0 = self.positions_seen();
        let ghost b0 = buf@;
        let ghost need0 = (b0.len() - start) as nat;
        let mut filled: usize = 0;
        let mut p: u64 = pos;
        let ghost mut c: nat = 0;
        let ghost mut logged: Seq<int> = Seq::empty();
        loop
            invariant
                b0 == old(buf)@,
                pre == old(self).source_model(),
                p0 == old(self).positions_seen(),
                start + filled <= buf@.len(),
                buf@.len() == b0.len(),
                filled <= need0,
                need0 == b0.len() - start,
                pos + need0 <= u64::MAX,
                p == pos + filled,
                forall|i: int| 0 <= i < start ==> buf@[i] == b0[i],
                forall|i: int| start + filled <= i < buf@.len() ==> buf@[i] == b0[i],
                self.source_model() == pre.skip(c as int),
                c <= pre.len(),
                self.positions_seen() == p0 + logged,
                exact_run(pre, need0, pos as int).outcome == exact_run(
                    self.source_model(),
                    (need0 - filled) as nat,
                    p as int,
                ).outcome,
                exact_run(pre, need0, pos as int).filled == buf@.subrange(
                    start as int,
                    start + filled,
                ) + exact_run(self.source_model(), (need0 - filled) as nat, p as int).filled,
                exact_run(pre, need0, pos as int).consumed == c + exact_run(
                    self.source_model(),
                    (need0 - filled) as nat,
                    p as int,
                ).consumed,
                exact_run(pre, need0, pos as int).positions == logged + exact_run(
                    self.source_model(),
                    (need0 - filled) as nat,
                    p as int,
                ).positions,
            decreases self.source_model().len(),
        {
            let ghost run0 = exact_run(pre, need0, pos as int);
            if filled == buf.len() - start {
                proof {
                    let runc = exact_run(self.source_model(), (need0 - filled) as nat, p as int);
                    assert(runc.consumed == 0);
                    assert(runc.outcome == Ok::<(), ErrorKind>(()));
                    assert(runc.filled =~= Seq::<u8>::empty());
                    assert(run0.filled =~= buf@.subrange(start as int, start + filled));
                    assert(run0.positions =~= logged);
                    assert(self.positions_seen() =~= p0 + run0.positions);
                }
                return Ok(());
            }
            let ghost cur = self.source_model();
            let ghost rem = (need0 - filled) as nat;
            let ghost bpre = buf@;
            let r = self.read_at(buf, start + filled, p);
            proof {
                logged = logged.push(p as int);
                assert(self.positions_seen() =~= p0 + logged);
            }
            match r {
                Ok(n) => {
                    if n == 0 {
                        proof {
                            let runc = exact_run(cur, rem, p as int);
                            if cur.len() > 0 {
                                assert(runc.consumed == 1);
                                c = c + 1;
                                assert(self.source_model() =~= pre.skip(c as int));
                            } else {
                                assert(runc.consumed == 0);
                            }
                            assert(runc.positions =~= seq![p as int]);
                            assert(run0.filled =~= buf@.subrange(start as int, start + filled));
                            assert(run0.positions =~= logged);
                            assert(self.positions_seen() =~= p0 + run0.positions);
                        }
                        return Err(ErrorKind::UnexpectedEof);
                    }
                    proof {
                        c = c + 1;
                        let d = cur[0]->Data_0;
                        assert(self.source_model() =~= pre.skip(c as int));
                        assert(buf@.subrange(start as int, start + filled) =~= bpre.subrange(
                            start as int,
                            start + filled,
                        ));
                        assert(buf@.subrange(start as int, start + filled + n) =~= buf@.subrange(
                            start as int,
                            start + filled,
                        ) + d.take(n as int));
                        assert(run0.filled =~= buf@.subrange(start as int, start + filled + n)
                            + exact_run(
                            self.source_model(),
                            (rem - n) as nat,
                            p + n,
                        ).filled);
                        assert(run0.positions =~= logged + exact_run(
                            self.source_model(),
                            (rem - n) as nat,
                            p + n,
                        ).positions);
                    }
                    filled = filled + n;
                    p = p + (n as u64);
                },
                Err(e) => {
                    match e {
                        ErrorKind::Interrupted => {
                            proof {
                                c = c + 1;
                                assert(self.source_model() =~= pre.skip(c as int));
                                assert(run0.positions =~= logged + exact_run(
                                    self.source_model(),
                                    rem,
                                    p as int,
                                ).positions);
                            }
                        },
                        _ => {
                            proof {
                                let runc = exact_run(cur, rem, p as int);
                                assert(runc.positions =~= seq![p as int]);
                                c = c + 1;
                                assert(self.source_model() =~= pre.skip(c as int));
                                assert(run0.filled =~= buf@.subrange(
                                    start as int,
                                    start + filled,
                                ));
                                assert(run0.positions =~= logged);
                                assert(self.positions_seen() =~= p0 + run0.positions);
                            }
                            return Err(e);
                        },
                    }
                },
            }
        }
    }
}

impl<T: Read> ReadExt for T {
    fn read_exact(&mut self, buf: &mut Vec<u8>, start: usize) -> (r: Result<(), ErrorKind>) {
        let ghost pre = self.source_model();
        let ghost b0 = buf@;
        let ghost need0 = (b0.len() - start) as nat;
        let mut filled: usize = 0;
        let ghost mut c: nat = 0;
        loop
            invariant
                b0 == old(buf)@,
                pre == old(self).source_model(),
                start + filled <= buf@.len(),
                buf@.len() == b0.len(),
                filled <= need0,
                need0 == b0.len() - start,
                forall|i: int| 0 <= i < start ==> buf@[i] == b0[i],
                forall|i: int| start + filled <= i < buf@.len() ==> buf@[i] == b0[i],
                self.source_model() == pre.skip(c as int),
                c <= pre.len(),
                exact_run(pre, need0, 0).outcome == exact_run(
                    self.source_model(),
                    (need0 - filled) as nat,
                    filled as int,
                ).outcome,
                exact_run(pre, need0, 0).filled == buf@.subrange(
                    start as int,
                    start + filled,
                ) + exact_run(self.source_model(), (need0 - filled) as nat, filled as int).filled,
                exact_run(pre, need0, 0).consumed == c + exact_run(
                    self.source_model(),
                    (need0 - filled) as nat,
                    filled as int,
                ).consumed,
            decreases self.source_model().len(),
        {
            let ghost run0 = exact_run(pre, need0, 0);
            if filled == buf.len() - start {
                proof {
                    let runc = exact_run(self.source_model(), (need0 - filled) as nat, filled as int);
                    assert(runc.consumed == 0);
                    assert(runc.outcome == Ok::<(), ErrorKind>(()));
                    assert(runc.filled =~= Seq::<u8>::empty());
                    assert(run0.filled =~= buf@.subrange(start as int, start + filled));
                }
                return Ok(());
            }
            let ghost cur = self.source_model();
            let ghost rem = (need0 - filled) as nat;
            let ghost bpre = buf@;
            let r = self.read(buf, start + filled);
            proof {
                assert(read_post(
                    cur,
                    self.source_model(),
                    bpre,
                    buf@,
                    start + filled,
                    r,
                ));
            }
            match r {
                Ok(n) => {
                    if n == 0 {
                        proof {
                            let runc = exact_run(cur, rem, filled as int);
                            if cur.len() > 0 {
                                assert(runc.consumed == 1);
                                assert(runc.outcome == Err::<(), ErrorKind>(
                                    ErrorKind::UnexpectedEof,
                                ));
                                c = c + 1;
                                assert(self.source_model() =~= pre.skip(c as int));
                            } else {
                                assert(runc.consumed == 0);
                                assert(runc.outcome == Err::<(), ErrorKind>(
                                    ErrorKind::UnexpectedEof,
                                ));
                            }
                            assert(run0.filled =~= buf@.subrange(start as int, start + filled));
                        }
                        return Err(ErrorKind::UnexpectedEof);
                    }
                    proof {
                        c = c + 1;
                        let d = cur[0]->Data_0;
                        assert(self.source_model() =~= pre.skip(c as int));
                        assert(buf@.subrange(start as int, start + filled) =~= bpre.subrange(
                            start as int,
                            start + filled,
                        ));
                        assert(buf@.subrange(start as int, start + filled + n) =~= buf@.subrange(
                            start as int,
                            start + filled,
                        ) + d.take(n as int));
                        assert(run0.filled =~= buf@.subrange(start as int, start + filled + n)
                            + exact_run(self.source_model(), (rem - n) as nat, filled + n).filled);
                    }
                    filled = filled + n;
                },
                Err(e) => {
                    match e {
                        ErrorKind::Interrupted => {
                            proof {
                                c = c + 1;
                                assert(self.source_model() =~= pre.skip(c as int));
                            }
                        },
                        _ => {
                            proof {
                                c = c + 1;
                                assert(self.source_model() =~= pre.skip(c as int));
                                assert(run0.filled =~= buf@.subrange(
                                    start as int,
                                    start + filled,
                                ));
                            }
                            return Err(e);
                        },
                    }
                },
            }
        }
    }
}

/// One scripted outcome of an in-memory source: bytes to hand out (an empty
/// vector signals end of stream) or a failure to report.
#[derive(Debug)]
pub enum ScriptStep {
    Give(Vec<u8>),
    Fail(ErrorKind),
}

/// The outcome a script step stands for.
pub open spec fn step_model(s: ScriptStep) -> SubRead {
    match s {
        ScriptStep::Give(v) => SubRead::Data(v@),
        ScriptStep::Fail(k) => SubRead::Fail(k),
    }
}

/// Copies as much of `src` as fits into `buf[start..]`; returns how many bytes
/// were copied.
fn copy_into(src: &Vec<u8>, buf: &mut Vec<u8>, start: usize) -> (n: usize)
    requires
        start <= old(buf).len(),
    ensures
        n == vstd::math::min(src@.len() as int, old(buf)@.len() - start),
        final(buf)@.len() == old(buf)@.len(),
        forall|j: int| 0 <= j < start ==> final(buf)@[j] == old(buf)@[j],
        forall|j: int| 0 <= j < n ==> final(buf)@[start + j] == src@[j],
        forall|j: int| start + n <= j < final(buf)@.len() ==> final(buf)@[j] == old(buf)@[j],
{
    let space = buf.len() - start;
    let n = if src.len() < space {
        src.len()
    } else {
        space
    };
    let mut i: usize = 0;
    while i < n
        invariant
            i <= n,
            n <= src@.len(),
            start + n <= buf@.len(),
            buf@.len() <= usize::MAX,
            buf@.len() == old(buf)@.len(),
            forall|j: int| 0 <= j < start ==> buf@[j] == old(buf)@[j],
            forall|j: int| 0 <= j < i ==> buf@[start + j] == src@[j],
            forall|j: int| start + i <= j < buf@.len() ==> buf@[j] == old(buf)@[j],
        decreases n - i,
    {
        let b = src[i];
        buf[start + i] = b;
        i = i + 1;
    }
    n
}

/// A deterministic in-memory source: hands out the scripted outcomes in
/// order, then reports end of stream forever.
pub struct ScriptedReader {
    steps: Vec<ScriptStep>,
    next: usize,
}

impl ScriptedReader {
    /// A source that will yield exactly `steps`, in order.
    pub fn new(steps: Vec<ScriptStep>) -> (r: Self)
        ensures
            r.source_model() == steps@.map_values(|s: ScriptStep| step_model(s)),
    {
        let r = ScriptedReader { steps, next: 0 };
        proof {
            assert(r.source_model() =~= r.steps@.map_values(|s: ScriptStep| step_model(s)));
        }
        r
    }
}

impl Read for ScriptedReader {
    closed spec fn source_model(&self) -> Seq<SubRead> {
        self.steps@.skip(vstd::math::min(self.next as int, self.steps@.len() as int)).map_values(
            |s: ScriptStep| step_model(s),
        )
    }

    fn read(&mut self, buf: &mut Vec<u8>, start: usize) -> (r: Result<usize, ErrorKind>) {
        let ghost pre = self.source_model();
        if self.next >= self.steps.len() {
            proof {
                assert(pre =~= Seq::<SubRead>::empty());
            }
            return Ok(0);
        }
        let ghost post = self.steps@.skip(self.next + 1).map_values(
            |s: ScriptStep| step_model(s),
        );
        proof {
            assert(post =~= pre.skip(1));
            assert(pre[0] == step_model(self.steps@[self.next as int]));
        }
        match &self.steps[self.next] {
            ScriptStep::Fail(k) => {
                let kk = *k;
                self.next = self.next + 1;
                Err(kk)
            },
            ScriptStep::Give(v) => {
                let n = copy_into(v, buf, start);
                self.next = self.next + 1;
                Ok(n)
            },
        }
    }
}

/// A deterministic in-memory positional source: hands out the scripted
/// outcomes in order whatever the position, and logs the position of every
/// read attempt.
pub struct ScriptedReaderAt {
    steps: Vec<ScriptStep>,
    next: usize,
    log: Vec<u64>,
}

impl ScriptedReaderAt {
    /// A source that will yield exactly `steps`, in order, with an empty log.
    pub fn new(steps: Vec<ScriptStep>) -> (r: Self)
        ensures
            r.source_model() == steps@.map_values(|s: ScriptStep| step_model(s)),
            r.positions_seen() == Seq::<int>::empty(),
    {
        let r = ScriptedReaderAt { steps, next: 0, log: Vec::new() };
        proof {
            assert(r.source_model() =~= r.steps@.map_values(|s: ScriptStep| step_model(s)));
            assert(r.positions_seen() =~= Seq::<int>::empty());
        }
        r
    }

    /// The position of every read attempt so far, oldest first.
    pub fn positions_logged(&self) -> (r: &Vec<u64>)
        ensures
            r@.map_values(|x: u64| x as int) == self.positions_seen(),
    {
        &self.log
    }
}

impl ReadAt for ScriptedReaderAt {
    closed spec fn source_model(&self) -> Seq<SubRead> {
        self.steps@.skip(vstd::math::min(self.next as int, self.steps@.len() as int)).map_values(
            |s: ScriptStep| step_model(s),
        )
    }

    closed spec fn positions_seen(&self) -> Seq<int> {
        self.log@.map_values(|x: u64| x as int)
    }

    fn read_at(&mut self, buf: &mut Vec<u8>, start: usize, pos: u64) -> (r: Result<
        usize,
        ErrorKind,
    >) {
        let ghost pre = self.source_model();
        let ghost seen = self.positions_seen();
        self.log.push(pos);
        proof {
            assert(self.positions_seen() =~= seen.push(pos as int));
        }
        if self.next >= self.steps.len() {
            proof {
                assert(pre =~= Seq::<SubRead>::empty());
            }
            return Ok(0);
        }
        let ghost post = self.steps@.skip(self.next + 1).map_values(
            |s: ScriptStep| step_model(s),
        );
        proof {
            assert(post =~= pre.skip(1));
            assert(pre[0] == step_model(self.steps@[self.next as int]));
        }
        match &self.steps[self.next] {
            ScriptStep::Fail(k) => {
                let kk = *k;
                self.next = self.next + 1;
                Err(kk)
            },
            ScriptStep::Give(v) => {
                let n = copy_into(v, buf, start);
                self.next = self.next + 1;
                Ok(n)
            },
        }
    }
}

} // verus!
