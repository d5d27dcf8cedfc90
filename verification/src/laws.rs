//! The laws of the combinator algebra, stated over the transition
//! relations and proved once for every parser and every input.
use vstd::prelude::*;
use vstd::std_specs::cmp::PartialEqSpec;

use crate::character::{AsChar, Digit};
use crate::combinator::{or_after_left, or_only_right, then_first, AndState, And, Or, OrState,
    Then, ThenState};
use crate::element::{Any, AnyOf, Equals, NoneOf, NotEquals};
use crate::error::{AnyOfError, Chain, DigitError, EqualsError, NoneOfError, NotEqualsError};
use crate::map::MapErrors;
use crate::parser::{step_is_done, step_is_fatal, step_is_recov, NoFailure, Parser, Step,
    StepFailure, Transition};

verus! {

/// A terminal matcher never suspends: one step of `Any` finishes at once
/// with the input element.
pub proof fn terminal_single_step_any<I>(
    m: Any,
    input: I,
    r: Step<Any, I, NoFailure, NoFailure>,
)
    requires
        m.transits(input, r),
    ensures
        r matches Ok(Transition::Done(out)) && out == input,
{
}

/// A terminal matcher never suspends: one step of `Equals` either
/// finishes with the input element or fails at once.
pub proof fn terminal_single_step_equals<I: PartialEq>(
    m: Equals<I>,
    input: I,
    r: Step<Equals<I>, I, EqualsError<I>, NoFailure>,
)
    requires
        m.transits(input, r),
    ensures
        r matches Ok(Transition::Done(out)) ==> out == input,
        r matches Ok(Transition::Done(_)) || r matches Err(StepFailure::Recoverable(_)),
{
}

/// A terminal matcher never suspends: one step of `NotEquals` either
/// finishes with the input element or fails at once.
pub proof fn terminal_single_step_not_equals<I: PartialEq>(
    m: NotEquals<I>,
    input: I,
    r: Step<NotEquals<I>, I, NotEqualsError<I>, NoFailure>,
)
    requires
        m.transits(input, r),
    ensures
        r matches Ok(Transition::Done(out)) ==> out == input,
        r matches Ok(Transition::Done(_)) || r matches Err(StepFailure::Recoverable(_)),
{
}

/// A terminal matcher never suspends: one step of `AnyOf` either finishes
/// with the input element or fails at once.
pub proof fn terminal_single_step_any_of<I: PartialEq + Copy>(
    m: AnyOf<I>,
    input: I,
    r: Step<AnyOf<I>, I, AnyOfError<I>, NoFailure>,
)
    requires
        m.transits(input, r),
    ensures
        r matches Ok(Transition::Done(out)) ==> out == input,
        r matches Ok(Transition::Done(_)) || r matches Err(StepFailure::Recoverable(_)),
{
}

/// A terminal matcher never suspends: one step of `NoneOf` either
/// finishes with the input element or fails at once.
pub proof fn terminal_single_step_none_of<I: PartialEq + Copy>(
    m: NoneOf<I>,
    input: I,
    r: Step<NoneOf<I>, I, NoneOfError<I>, NoFailure>,
)
    requires
        m.transits(input, r),
    ensures
        r matches Ok(Transition::Done(out)) ==> out == input,
        r matches Ok(Transition::Done(_)) || r matches Err(StepFailure::Recoverable(_)),
{
}

/// A terminal matcher never suspends: one step of `Digit` either finishes
/// with the digit's value or fails at once.
pub proof fn terminal_single_step_digit<I: AsChar>(
    m: Digit,
    input: I,
    r: Step<Digit, u32, DigitError<I>, NoFailure>,
)
    requires
        m.transits(input, r),
    ensures
        r matches Ok(Transition::Done(_)) || r matches Err(StepFailure::Recoverable(_)),
{
}

/// Left bias of alternation: when both branches are still candidates and
/// the left branch finishes on this element with output `a`, the
/// alternation finishes with `a`, whatever the right branch would return.
pub proof fn or_left_bias<P, Q, I: Copy>(
    or: Or<P, Q, I>,
    left: P,
    right: Q,
    input: I,
    a: P::Output,
    r: Step<Or<P, Q, I>, P::Output, Chain<P::Error, Q::Error>, P::Fatal>,
) where P: Parser<I>, Q: Parser<I, Output = P::Output, Fatal = P::Fatal>
    requires
        or.state == (OrState::<P, Q, P::Error, Q::Error>::Both { left, right }),
        forall|lr: Step<P, P::Output, P::Error, P::Fatal>|
            #[trigger] left.transits(input, lr) ==> step_is_done(lr, a),
        or.transits(input, r),
    ensures
        step_is_done(r, a),
{
    let lr = choose|lr: Step<P, P::Output, P::Error, P::Fatal>|
        #[trigger] left.transits(input, lr) && or_after_left(right, input, lr, r);
    assert(step_is_done(lr, a));
}

/// Narrowing of alternation: when both branches are still candidates, the
/// left branch fails recoverably with `e` on this element, and the
/// alternation suspends, then it has narrowed to the right branch and
/// remembers the discarded diagnostic `e`.
pub proof fn or_narrows_to_right<P, Q, I: Copy>(
    or: Or<P, Q, I>,
    left: P,
    right: Q,
    input: I,
    e: P::Error,
    r: Step<Or<P, Q, I>, P::Output, Chain<P::Error, Q::Error>, P::Fatal>,
) where P: Parser<I>, Q: Parser<I, Output = P::Output, Fatal = P::Fatal>
    requires
        or.state == (OrState::<P, Q, P::Error, Q::Error>::Both { left, right }),
        forall|lr: Step<P, P::Output, P::Error, P::Fatal>|
            #[trigger] left.transits(input, lr) ==> step_is_recov(lr, e),
        or.transits(input, r),
    ensures
        r matches Ok(Transition::Parsing(or2, _)) ==> (or2.state matches OrState::OnlyRight {
            right: _,
            discarded: Some(e2),
        } && e2 == e),
{
    let lr = choose|lr: Step<P, P::Output, P::Error, P::Fatal>|
        #[trigger] left.transits(input, lr) && or_after_left(right, input, lr, r);
    assert(step_is_recov(lr, e));
}

/// An alternation narrowed to its right branch behaves as that branch
/// alone: when the branch finishes on this element with output `b`, so
/// does the alternation.
pub proof fn or_narrowed_right_done<P, Q, I: Copy>(
    or: Or<P, Q, I>,
    right: Q,
    discarded: Option<P::Error>,
    input: I,
    b: Q::Output,
    r: Step<Or<P, Q, I>, P::Output, Chain<P::Error, Q::Error>, P::Fatal>,
) where P: Parser<I>, Q: Parser<I, Output = P::Output, Fatal = P::Fatal>
    requires
        or.state == (OrState::<P, Q, P::Error, Q::Error>::OnlyRight { right, discarded }),
        forall|rr: Step<Q, Q::Output, Q::Error, Q::Fatal>|
            #[trigger] right.transits(input, rr) ==> step_is_done(rr, b),
        or.transits(input, r),
    ensures
        step_is_done(r, b),
{
    let rr = choose|rr: Step<Q, Q::Output, Q::Error, Q::Fatal>|
        #[trigger] right.transits(input, rr) && or_only_right::<P, Q, I>(discarded, rr, r);
    assert(step_is_done(rr, b));
}

/// Fatal aborts win: when both branches are still candidates and the left
/// branch aborts fatally with `f` on this element, the alternation aborts
/// with `f`; the abort is never resolved by trying the other branch.
pub proof fn or_fatal_wins<P, Q, I: Copy>(
    or: Or<P, Q, I>,
    left: P,
    right: Q,
    input: I,
    f: P::Fatal,
    r: Step<Or<P, Q, I>, P::Output, Chain<P::Error, Q::Error>, P::Fatal>,
) where P: Parser<I>, Q: Parser<I, Output = P::Output, Fatal = P::Fatal>
    requires
        or.state == (OrState::<P, Q, P::Error, Q::Error>::Both { left, right }),
        forall|lr: Step<P, P::Output, P::Error, P::Fatal>|
            #[trigger] left.transits(input, lr) ==> step_is_fatal(lr, f),
        or.transits(input, r),
    ensures
        step_is_fatal(r, f),
{
    let lr = choose|lr: Step<P, P::Output, P::Error, P::Fatal>|
        #[trigger] left.transits(input, lr) && or_after_left(right, input, lr, r);
    assert(step_is_fatal(lr, f));
}

/// A narrowed alternation surfaces the remembered diagnostic: when the
/// surviving right branch fails recoverably with `e` on this element, the
/// alternation fails with the remembered left diagnostic chained before
/// `e`.
pub proof fn or_narrowed_right_failure<P, Q, I: Copy>(
    or: Or<P, Q, I>,
    right: Q,
    discarded: Option<P::Error>,
    input: I,
    e: Q::Error,
    r: Step<Or<P, Q, I>, P::Output, Chain<P::Error, Q::Error>, P::Fatal>,
) where P: Parser<I>, Q: Parser<I, Output = P::Output, Fatal = P::Fatal>
    requires
        or.state == (OrState::<P, Q, P::Error, Q::Error>::OnlyRight { right, discarded }),
        forall|rr: Step<Q, Q::Output, Q::Error, Q::Fatal>|
            #[trigger] right.transits(input, rr) ==> step_is_recov(rr, e),
        or.transits(input, r),
    ensures
        step_is_recov(r, Chain { left: discarded, right: Some(e) }),
{
    let rr = choose|rr: Step<Q, Q::Output, Q::Error, Q::Fatal>|
        #[trigger] right.transits(input, rr) && or_only_right::<P, Q, I>(discarded, rr, r);
    assert(step_is_recov(rr, e));
}

/// Ordering of the sequential join: while the left child is still
/// consuming, the right child receives nothing — whatever this step
/// returns, the held right child is exactly the one held before.
pub proof fn then_right_untouched<P, Q, I>(
    thn: Then<P, Q, I>,
    left: P,
    right: Q,
    input: I,
    r: Step<Then<P, Q, I>, (P::Output, Q::Output), Chain<P::Error, Q::Error>,
        P::Fatal>,
) where P: Parser<I>, Q: Parser<I, Fatal = P::Fatal>
    requires
        thn.state == (ThenState::<P, Q, P::Output>::First { left, right }),
        thn.transits(input, r),
    ensures
        r matches Ok(Transition::Parsing(t2, _)) ==> match t2.state {
            ThenState::First { left: _, right: r2 } => r2 == right,
            ThenState::Second { output: _, right: r2 } => r2 == right,
        },
{
    let lr = choose|lr: Step<P, P::Output, P::Error, P::Fatal>|
        #[trigger] left.transits(input, lr) && then_first(right, lr, r);
}

/// Independence of the parallel join: once the left child has finished,
/// its output is held unchanged — a suspension keeps holding it and the
/// final pair carries it — while only the right child is driven.
pub proof fn and_left_output_held<P, Q, I: Copy>(
    and: And<P, Q, I>,
    a: P::Output,
    right: Q,
    input: I,
    r: Step<And<P, Q, I>, (P::Output, Q::Output), Chain<P::Error, Q::Error>,
        P::Fatal>,
) where P: Parser<I>, Q: Parser<I, Fatal = P::Fatal>
    requires
        and.state == (AndState::<P, Q, P::Output, Q::Output>::LeftDone { output: a, right }),
        and.transits(input, r),
    ensures
        r matches Ok(Transition::Done(pair)) ==> pair.0 == a,
        r matches Ok(Transition::Parsing(and2, _)) ==> (and2.state matches AndState::LeftDone {
            output: a2,
            right: _,
        } && a2 == a),
{
}

/// Identity transform of diagnostics: a diagnostic wrapper whose
/// transform returns every diagnostic unchanged steps exactly as the
/// wrapped parser does, diagnostics included.
pub proof fn map_errors_identity<I, E, P, F: Fn(E) -> E>(
    m: MapErrors<P, F, E>,
    input: I,
    r: Step<MapErrors<P, F, E>, P::Output, E, P::Fatal>,
) where P: Parser<I, Error = E>
    requires
        forall|e: E, e2: E| #[trigger] call_ensures(m.mapper, (e,), e2) ==> e2 == e,
        m.transits(input, r),
    ensures
        exists|ir: Step<P, P::Output, E, P::Fatal>|
            {
                &&& #[trigger] m.inner.transits(input, ir)
                &&& match ir {
                    Ok(Transition::Done(a)) => step_is_done(r, a),
                    Ok(Transition::Parsing(p2, d)) => r matches Ok(Transition::Parsing(m2, d2))
                        && m2.inner == p2 && d2 == d,
                    Err(StepFailure::Recoverable(rf)) => step_is_recov(r, rf.errors),
                    Err(StepFailure::Fatal(ff)) => step_is_fatal(r, ff.errors),
                }
            },
{
    let ir = choose|ir: Step<P, P::Output, E, P::Fatal>|
        {
            &&& #[trigger] m.inner.transits(input, ir)
            &&& match ir {
                Ok(Transition::Done(a)) => step_is_done(r, a),
                Ok(Transition::Parsing(p2, None)) => r matches Ok(Transition::Parsing(m2, d2))
                    && m2.inner == p2 && m2.mapper == m.mapper && d2 is None,
                Ok(Transition::Parsing(p2, Some(e))) => exists|e2: E|
                    {
                        &&& #[trigger] call_ensures(m.mapper, (e,), e2)
                        &&& r matches Ok(Transition::Parsing(m2, d2)) && m2.inner == p2
                            && m2.mapper == m.mapper && d2 == Some(e2)
                    },
                Err(StepFailure::Recoverable(rf)) => exists|e2: E|
                    #[trigger] call_ensures(m.mapper, (rf.errors,), e2) && step_is_recov(r, e2),
                Err(StepFailure::Fatal(ff)) => step_is_fatal(r, ff.errors),
            }
        };
    match ir {
        Ok(Transition::Parsing(p2, Some(e))) => {
            let e2 = choose|e2: E|
                {
                    &&& #[trigger] call_ensures(m.mapper, (e,), e2)
                    &&& r matches Ok(Transition::Parsing(m2, d2)) && m2.inner == p2
                        && m2.mapper == m.mapper && d2 == Some(e2)
                };
            assert(e2 == e);
        },
        Err(StepFailure::Recoverable(rf)) => {
            let e2 = choose|e2: E|
                #[trigger] call_ensures(m.mapper, (rf.errors,), e2) && step_is_recov(r, e2);
            assert(e2 == rf.errors);
        },
        _ => {},
    }
    assert(m.inner.transits(input, ir));
}

} // verus!
