//! Drivers that feed a finite sequence of elements to a parser until it
//! finishes, translating under- and over-consumption into end-of-input
//! diagnostics.
//!
//! Each driver's contract is a relation defined by recursion over the
//! element sequence, folding the parser's transition relation one element
//! at a time.
use vstd::prelude::*;

use crate::error::{ExpectedEndOfInput, UnexpectedEndOfInput};
use crate::parser::{Parser, Step, StepFailure, Transition};

verus! {

/// Why a driver failed: the parser failed recoverably or aborted, the
/// elements ran out before the parser finished, or the parser finished
/// with elements left over.
pub enum StreamError<A, E, F> {
    Failed(E),
    Aborted(F),
    UnexpectedEnd(UnexpectedEndOfInput),
    ExpectedEnd(ExpectedEndOfInput<A>),
}

/// The result type of the completion drivers.
pub type DriveResult<A, E, F> = Result<A, StreamError<A, E, F>>;

/// Whether drive result `r` is the success `a`.
pub open spec fn drive_ok<A, E, F>(r: DriveResult<A, E, F>, a: A) -> bool {
    r == Ok::<A, StreamError<A, E, F>>(a)
}

/// Whether drive result `r` is the failure `e`.
pub open spec fn drive_err<A, E, F>(r: DriveResult<A, E, F>, e: StreamError<A, E, F>) -> bool {
    r == Err::<A, StreamError<A, E, F>>(e)
}

/// The relation between a parser, a sequence fed to it element by
/// element, and the result of driving it to completion over exactly that
/// sequence: finishing on the last element is success, finishing earlier
/// leaves trailing input, and a parser still suspended when the elements
/// run out has consumed too little.
pub open spec fn drives_exact<I, P: Parser<I>>(
    p: P,
    elems: Seq<I>,
    r: DriveResult<P::Output, P::Error, P::Fatal>,
) -> bool
    decreases elems.len(),
{
    if elems.len() == 0 {
        drive_err(r, StreamError::UnexpectedEnd(UnexpectedEndOfInput))
    } else {
        exists|sr: Step<P, P::Output, P::Error, P::Fatal>|
            {
                &&& #[trigger] p.transits(elems[0], sr)
                &&& match sr {
                    Ok(Transition::Done(a)) => if elems.len() == 1 {
                        drive_ok(r, a)
                    } else {
                        drive_err(r, StreamError::ExpectedEnd(ExpectedEndOfInput { found: a }))
                    },
                    Ok(Transition::Parsing(p2, _)) => drives_exact(p2, elems.skip(1), r),
                    Err(StepFailure::Recoverable(rf)) => drive_err(
                        r,
                        StreamError::Failed(rf.errors),
                    ),
                    Err(StepFailure::Fatal(ff)) => drive_err(r, StreamError::Aborted(ff.errors)),
                }
            }
    }
}

/// Feed the elements of `elements` to `parser` one by one.  The parser
/// must finish exactly on the last element: if it finishes earlier the
/// driver reports trailing input together with the produced output, and if
/// it is still suspended after the last element the driver reports a
/// premature end of input; an empty sequence is always a premature end.
#[verifier::loop_isolation(false)]
pub fn parse_iter<I: Copy, P: Parser<I>>(parser: P, elements: Vec<I>) -> (r: DriveResult<
    P::Output,
    P::Error,
    P::Fatal,
>)
    requires
        parser.wf(),
    ensures
        drives_exact(parser, elements@, r),
        elements@.len() == 0 ==> drive_err(
            r,
            StreamError::UnexpectedEnd(UnexpectedEndOfInput),
        ),
{
    let ghost parser0 = parser;
    let n = elements.len();
    let mut cur = parser;
    let mut i: usize = 0;
    proof {
        assert(elements@.skip(0) =~= elements@);
    }
    while i < n
        invariant
            i <= n,
            n == elements@.len(),
            cur.wf(),
            forall|rr: DriveResult<P::Output, P::Error, P::Fatal>|
                #[trigger] drives_exact(cur, elements@.skip(i as int), rr) ==> drives_exact(
                    parser0,
                    elements@,
                    rr,
                ),
        decreases n - i,
    {
        let x = elements[i];
        let ghost cur0 = cur;
        let ghost rest = elements@.skip(i as int);
        proof {
            assert(rest[0] == elements@[i as int]);
        }
        let step = cur.transit(x);
        match step {
            Ok(Transition::Done(a)) => {
                if i + 1 == n {
                    let r = Ok(a);
                    proof {
                        assert(drives_exact(cur0, rest, r));
                    }
                    return r;
                } else {
                    let r = Err(StreamError::ExpectedEnd(ExpectedEndOfInput { found: a }));
                    proof {
                        assert(drives_exact(cur0, rest, r));
                    }
                    return r;
                }
            },
            Ok(Transition::Parsing(p2, _)) => {
                cur = p2;
            },
            Err(StepFailure::Recoverable(rf)) => {
                let r = Err(StreamError::Failed(rf.errors));
                proof {
                    assert(drives_exact(cur0, rest, r));
                }
                return r;
            },
            Err(StepFailure::Fatal(ff)) => {
                let r = Err(StreamError::Aborted(ff.errors));
                proof {
                    assert(drives_exact(cur0, rest, r));
                }
                return r;
            },
        }
        proof {
            assert(rest.skip(1) =~= elements@.skip(i + 1));
            assert forall|rr: DriveResult<P::Output, P::Error, P::Fatal>|
                drives_exact(cur, elements@.skip(i + 1), rr) implies drives_exact(
                parser0,
                elements@,
                rr,
            ) by {
                assert(drives_exact(cur, rest.skip(1), rr));
                assert(drives_exact(cur0, rest, rr));
            };
        }
        i += 1;
    }
    let r = Err(StreamError::UnexpectedEnd(UnexpectedEndOfInput));
    proof {
        assert(elements@.skip(n as int) =~= Seq::<I>::empty());
        assert(drives_exact(cur, elements@.skip(n as int), r));
    }
    r
}

/// The relation between a parser of optional elements, a sequence fed to
/// it wrapped as present values and closed with one absent marker, and the
/// result of driving it to completion: finishing on a present element is
/// success only when it was the last one, and a parser still suspended
/// after the absent marker has consumed too little.
pub open spec fn drives_marked<I, P: Parser<Option<I>>>(
    p: P,
    elems: Seq<I>,
    r: DriveResult<P::Output, P::Error, P::Fatal>,
) -> bool
    decreases elems.len(),
{
    if elems.len() == 0 {
        exists|sr: Step<P, P::Output, P::Error, P::Fatal>|
            {
                &&& #[trigger] p.transits(None, sr)
                &&& match sr {
                    Ok(Transition::Done(a)) => drive_ok(r, a),
                    Ok(Transition::Parsing(_, _)) => drive_err(
                        r,
                        StreamError::UnexpectedEnd(UnexpectedEndOfInput),
                    ),
                    Err(StepFailure::Recoverable(rf)) => drive_err(
                        r,
                        StreamError::Failed(rf.errors),
                    ),
                    Err(StepFailure::Fatal(ff)) => drive_err(r, StreamError::Aborted(ff.errors)),
                }
            }
    } else {
        exists|sr: Step<P, P::Output, P::Error, P::Fatal>|
            {
                &&& #[trigger] p.transits(Some(elems[0]), sr)
                &&& match sr {
                    Ok(Transition::Done(a)) => if elems.len() == 1 {
                        drive_ok(r, a)
                    } else {
                        drive_err(r, StreamError::ExpectedEnd(ExpectedEndOfInput { found: a }))
                    },
                    Ok(Transition::Parsing(p2, _)) => drives_marked(p2, elems.skip(1), r),
                    Err(StepFailure::Recoverable(rf)) => drive_err(
                        r,
                        StreamError::Failed(rf.errors),
                    ),
                    Err(StepFailure::Fatal(ff)) => drive_err(r, StreamError::Aborted(ff.errors)),
                }
            }
    }
}

/// Feed the elements of `elements` to `parser` wrapped as present values,
/// then one absent marker if the parser has not finished.  Finishing
/// before the last element reports trailing input; a parser still
/// suspended after the absent marker reports a premature end of input.
#[verifier::loop_isolation(false)]
pub fn parse_iter_complete<I: Copy, P: Parser<Option<I>>>(parser: P, elements: Vec<I>) -> (r:
    DriveResult<P::Output, P::Error, P::Fatal>)
    requires
        parser.wf(),
    ensures
        drives_marked(parser, elements@, r),
{
    let ghost parser0 = parser;
    let n = elements.len();
    let mut cur = parser;
    let mut i: usize = 0;
    proof {
        assert(elements@.skip(0) =~= elements@);
    }
    while i < n
        invariant
            i <= n,
            n == elements@.len(),
            cur.wf(),
            forall|rr: DriveResult<P::Output, P::Error, P::Fatal>|
                #[trigger] drives_marked(cur, elements@.skip(i as int), rr) ==> drives_marked(
                    parser0,
                    elements@,
                    rr,
                ),
        decreases n - i,
    {
        let x = elements[i];
        let ghost cur0 = cur;
        let ghost rest = elements@.skip(i as int);
        proof {
            assert(rest[0] == elements@[i as int]);
        }
        let step = cur.transit(Some(x));
        match step {
            Ok(Transition::Done(a)) => {
                if i + 1 == n {
                    let r = Ok(a);
                    proof {
                        assert(drives_marked(cur0, rest, r));
                    }
                    return r;
                } else {
                    let r = Err(StreamError::ExpectedEnd(ExpectedEndOfInput { found: a }));
                    proof {
                        assert(drives_marked(cur0, rest, r));
                    }
                    return r;
                }
            },
            Ok(Transition::Parsing(p2, _)) => {
                cur = p2;
            },
            Err(StepFailure::Recoverable(rf)) => {
                let r = Err(StreamError::Failed(rf.errors));
                proof {
                    assert(drives_marked(cur0, rest, r));
                }
                return r;
            },
            Err(StepFailure::Fatal(ff)) => {
                let r = Err(StreamError::Aborted(ff.errors));
                proof {
                    assert(drives_marked(cur0, rest, r));
                }
                return r;
            },
        }
        proof {
            assert(rest.skip(1) =~= elements@.skip(i + 1));
            assert forall|rr: DriveResult<P::Output, P::Error, P::Fatal>|
                drives_marked(cur, elements@.skip(i + 1), rr) implies drives_marked(
                parser0,
                elements@,
                rr,
            ) by {
                assert(drives_marked(cur, rest.skip(1), rr));
                assert(drives_marked(cur0, rest, rr));
            };
        }
        i += 1;
    }
    let ghost curend = cur;
    proof {
        assert(elements@.skip(n as int) =~= Seq::<I>::empty());
    }
    let step = cur.transit(None);
    let r: DriveResult<P::Output, P::Error, P::Fatal> = match step {
        Ok(Transition::Done(a)) => Ok(a),
        Ok(Transition::Parsing(_, _)) => Err(StreamError::UnexpectedEnd(UnexpectedEndOfInput)),
        Err(StepFailure::Recoverable(rf)) => Err(StreamError::Failed(rf.errors)),
        Err(StepFailure::Fatal(ff)) => Err(StreamError::Aborted(ff.errors)),
    };
    proof {
        assert(drives_marked(curend, elements@.skip(n as int), r));
    }
    r
}

/// The result type of the partial driver: on success, the unconsumed
/// remainder of the source is returned alongside the output.
pub type PartialResult<I, A, E, F> = Result<(Vec<I>, A), StreamError<A, E, F>>;

/// Whether partial drive result `r` is a success with output `a` and
/// remainder `rem`.
pub open spec fn partial_ok<I, A, E, F>(r: PartialResult<I, A, E, F>, rem: Seq<I>, a: A) -> bool {
    match r {
        Ok((v, out)) => v@ == rem && out == a,
        Err(_) => false,
    }
}

/// Whether partial drive result `r` is the failure `e`.
pub open spec fn partial_err<I, A, E, F>(r: PartialResult<I, A, E, F>, e: StreamError<A, E, F>) -> bool {
    r == Err::<(Vec<I>, A), StreamError<A, E, F>>(e)
}

/// The relation between a parser of optional elements, a sequence fed to
/// it wrapped as present values and closed with one absent marker, and the
/// result of driving it only until it finishes: the unconsumed remainder
/// of the sequence is returned alongside the output, and only a parser
/// still suspended after the absent marker fails.
pub open spec fn drives_partial<I, P: Parser<Option<I>>>(
    p: P,
    elems: Seq<I>,
    r: PartialResult<I, P::Output, P::Error, P::Fatal>,
) -> bool
    decreases elems.len(),
{
    if elems.len() == 0 {
        exists|sr: Step<P, P::Output, P::Error, P::Fatal>|
            {
                &&& #[trigger] p.transits(None, sr)
                &&& match sr {
                    Ok(Transition::Done(a)) => partial_ok(r, Seq::<I>::empty(), a),
                    Ok(Transition::Parsing(_, _)) => partial_err(
                        r,
                        StreamError::UnexpectedEnd(UnexpectedEndOfInput),
                    ),
                    Err(StepFailure::Recoverable(rf)) => partial_err(
                        r,
                        StreamError::Failed(rf.errors),
                    ),
                    Err(StepFailure::Fatal(ff)) => partial_err(r, StreamError::Aborted(ff.errors)),
                }
            }
    } else {
        exists|sr: Step<P, P::Output, P::Error, P::Fatal>|
            {
                &&& #[trigger] p.transits(Some(elems[0]), sr)
                &&& match sr {
                    Ok(Transition::Done(a)) => partial_ok(r, elems.skip(1), a),
                    Ok(Transition::Parsing(p2, _)) => drives_partial(p2, elems.skip(1), r),
                    Err(StepFailure::Recoverable(rf)) => partial_err(
                        r,
                        StreamError::Failed(rf.errors),
                    ),
                    Err(StepFailure::Fatal(ff)) => partial_err(r, StreamError::Aborted(ff.errors)),
                }
            }
    }
}

/// Copy the elements of `elements` from position `start` on.
fn tail_from<I: Copy>(elements: &Vec<I>, start: usize) -> (t: Vec<I>)
    requires
        start <= elements@.len(),
    ensures
        t@ == elements@.skip(start as int),
{
    let mut t: Vec<I> = Vec::new();
    let mut j = start;
    let n = elements.len();
    while j < n
        invariant
            start <= j <= n,
            n == elements@.len(),
            t@ == elements@.subrange(start as int, j as int),
        decreases n - j,
    {
        let x = elements[j];
        t.push(x);
        proof {
            assert(elements@.subrange(start as int, j + 1) =~= elements@.subrange(
                start as int,
                j as int,
            ).push(x));
        }
        j += 1;
    }
    proof {
        assert(elements@.subrange(start as int, n as int) =~= elements@.skip(start as int));
    }
    t
}

/// Feed the elements of `elements` to `parser` wrapped as present values,
/// then one absent marker if the parser has not finished, and stop as soon
/// as the parser finishes: the unconsumed remainder of the source is
/// returned alongside the output, for grammars that intentionally do not
/// consume their whole input.
#[verifier::loop_isolation(false)]
pub fn parse_iter_incomplete<I: Copy, P: Parser<Option<I>>>(parser: P, elements: Vec<I>) -> (r:
    PartialResult<I, P::Output, P::Error, P::Fatal>)
    requires
        parser.wf(),
    ensures
        drives_partial(parser, elements@, r),
{
    let ghost parser0 = parser;
    let n = elements.len();
    let mut cur = parser;
    let mut i: usize = 0;
    proof {
        assert(elements@.skip(0) =~= elements@);
    }
    while i < n
        invariant
            i <= n,
            n == elements@.len(),
            cur.wf(),
            forall|rr: PartialResult<I, P::Output, P::Error, P::Fatal>|
                #[trigger] drives_partial(cur, elements@.skip(i as int), rr) ==> drives_partial(
                    parser0,
                    elements@,
                    rr,
                ),
        decreases n - i,
    {
        let x = elements[i];
        let ghost cur0 = cur;
        let ghost rest = elements@.skip(i as int);
        proof {
            assert(rest[0] == elements@[i as int]);
        }
        let step = cur.transit(Some(x));
        match step {
            Ok(Transition::Done(a)) => {
                let remainder = tail_from(&elements, i + 1);
                let r = Ok((remainder, a));
                proof {
                    assert(rest.skip(1) =~= elements@.skip(i + 1));
                    assert(drives_partial(cur0, rest, r));
                }
                return r;
            },
            Ok(Transition::Parsing(p2, _)) => {
                cur = p2;
            },
            Err(StepFailure::Recoverable(rf)) => {
                let r = Err(StreamError::Failed(rf.errors));
                proof {
                    assert(drives_partial(cur0, rest, r));
                }
                return r;
            },
            Err(StepFailure::Fatal(ff)) => {
                let r = Err(StreamError::Aborted(ff.errors));
                proof {
                    assert(drives_partial(cur0, rest, r));
                }
                return r;
            },
        }
        proof {
            assert(rest.skip(1) =~= elements@.skip(i + 1));
            assert forall|rr: PartialResult<I, P::Output, P::Error, P::Fatal>|
                drives_partial(cur, elements@.skip(i + 1), rr) implies drives_partial(
                parser0,
                elements@,
                rr,
            ) by {
                assert(drives_partial(cur, rest.skip(1), rr));
                assert(drives_partial(cur0, rest, rr));
            };
        }
        i += 1;
    }
    let ghost curend = cur;
    proof {
        assert(elements@.skip(n as int) =~= Seq::<I>::empty());
    }
    let step = cur.transit(None);
    let r: PartialResult<I, P::Output, P::Error, P::Fatal> = match step {
        Ok(Transition::Done(a)) => Ok((Vec::new(), a)),
        Ok(Transition::Parsing(_, _)) => Err(StreamError::UnexpectedEnd(UnexpectedEndOfInput)),
        Err(StepFailure::Recoverable(rf)) => Err(StreamError::Failed(rf.errors)),
        Err(StepFailure::Fatal(ff)) => Err(StreamError::Aborted(ff.errors)),
    };
    proof {
        assert(drives_partial(curend, elements@.skip(n as int), r));
    }
    r
}

} // verus!
