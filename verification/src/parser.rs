//! The transition protocol: the step result types and the [`Parser`] trait.
//!
//! A parser is an immutable value representing the parse state so far.  Each
//! step consumes the parser together with exactly one input element and
//! returns either the final output, or a successor parser (optionally
//! carrying a recoverable diagnostic), or a failure.  A recoverable failure
//! ends the parser but may be resolved by an enclosing alternation; a fatal
//! failure aborts parsing under every alternative.
use vstd::prelude::*;

verus! {

/// A placeholder for the failure channels a parser never uses: a terminal
/// matcher that cannot abort declares `NoFailure` as its fatal type, and
/// one that cannot fail at all also as its error type.  That such a parser
/// never returns the corresponding failure is stated by its transition
/// relation.
#[derive(Clone, Copy, PartialEq, Eq, Structural)]
pub struct NoFailure;

/// A recoverable terminal failure: the parser cannot produce a successor,
/// but an enclosing alternation may still succeed through another branch.
pub struct RecovFailure<E> {
    pub errors: E,
}

/// An unrecoverable abort: no alternative branch may be tried.
pub struct FatalFailure<F> {
    pub errors: F,
}

/// The failure channel of a single step: either a recoverable terminal
/// failure or a fatal abort.
pub enum StepFailure<E, F> {
    Recoverable(RecovFailure<E>),
    Fatal(FatalFailure<F>),
}

/// The successful outcome of feeding one input element to a parser:
/// either the final output, or the successor parser together with an
/// optional recoverable diagnostic observed during this step.
pub enum Transition<P, A, E> {
    Done(A),
    Parsing(P, Option<E>),
}

/// The full result of one step of a parser of type `P` with output `A`,
/// recoverable diagnostic type `E` and fatal abort type `F`.
pub type Step<P, A, E, F> = Result<Transition<P, A, E>, StepFailure<E, F>>;

/// Whether step result `r` finishes the parser with output `a`.
pub open spec fn step_is_done<P, A, E, F>(r: Step<P, A, E, F>, a: A) -> bool {
    r == Ok::<Transition<P, A, E>, StepFailure<E, F>>(Transition::<P, A, E>::Done(a))
}

/// Whether step result `r` fails the parser recoverably with `e`.
pub open spec fn step_is_recov<P, A, E, F>(r: Step<P, A, E, F>, e: E) -> bool {
    r == Err::<Transition<P, A, E>, StepFailure<E, F>>(StepFailure::Recoverable(
        RecovFailure { errors: e },
    ))
}

/// Whether step result `r` aborts the parser fatally with `f`.
pub open spec fn step_is_fatal<P, A, E, F>(r: Step<P, A, E, F>, f: F) -> bool {
    r == Err::<Transition<P, A, E>, StepFailure<E, F>>(StepFailure::Fatal(
        FatalFailure { errors: f },
    ))
}

/// The parser contract.
///
/// `transits` is the transition relation of the parser: it holds of a
/// pre-state, an input element and every step result the parser may return
/// for them.  Implementations whose step involves no caller-supplied
/// function define it as an exact equation; combinators carrying closures
/// define it relationally through `call_ensures`.
///
/// `wf` is the well-formedness invariant that a parser must satisfy before
/// it is stepped; every successor handed out by `transit` satisfies it
/// again.
pub trait Parser<I>: Sized {
    type Output;

    type Error;

    type Fatal;

    spec fn wf(self) -> bool;

    spec fn transits(
        self,
        input: I,
        r: Step<Self, Self::Output, Self::Error, Self::Fatal>,
    ) -> bool;

    fn transit(self, input: I) -> (r: Step<Self, Self::Output, Self::Error, Self::Fatal>)
        requires
            self.wf(),
        ensures
            self.transits(input, r),
            r matches Ok(Transition::Parsing(next, _)) ==> next.wf(),
    ;
}

impl<I, P: Parser<I>> Parser<I> for Box<P> {
    type Output = P::Output;

    type Error = P::Error;

    type Fatal = P::Fatal;

    open spec fn wf(self) -> bool {
        (*self).wf()
    }

    open spec fn transits(
        self,
        input: I,
        r: Step<Self, Self::Output, Self::Error, Self::Fatal>,
    ) -> bool {
        exists|ir: Step<P, P::Output, P::Error, P::Fatal>|
            {
                &&& (*self).transits(input, ir)
                &&& match ir {
                    Ok(Transition::Done(a)) => r == Ok::<_, StepFailure<P::Error, P::Fatal>>(
                        Transition::<Self, P::Output, P::Error>::Done(a),
                    ),
                    Ok(Transition::Parsing(next, d)) => exists|b: Box<P>|
                        #![auto]
                        *b == next && r == Ok::<_, StepFailure<P::Error, P::Fatal>>(
                            Transition::<Self, P::Output, P::Error>::Parsing(b, d),
                        ),
                    Err(f) => r == Err::<Transition<Self, P::Output, P::Error>, _>(f),
                }
            }
    }

    fn transit(self, input: I) -> (r: Step<Self, Self::Output, Self::Error, Self::Fatal>) {
        let ghost pre = self;
        match (*self).transit(input) {
            Ok(Transition::Done(a)) => {
                let r = Ok(Transition::Done(a));
                proof {
                    assert(pre.transits(input, r));
                }
                r
            },
            Ok(Transition::Parsing(next, d)) => {
                let b = Box::new(next);
                let r = Ok(Transition::Parsing(b, d));
                proof {
                    assert(pre.transits(input, r));
                }
                r
            },
            Err(f) => {
                let r = Err(f);
                proof {
                    assert(pre.transits(input, r));
                }
                r
            },
        }
    }
}

impl<P, A, E> Transition<P, A, E> {
    /// Apply a one-shot transform to the final output, if this transition
    /// carries one; a `Parsing` transition is left untouched.
    pub fn map_output<B, F: FnOnce(A) -> B>(self, mapper: F) -> (r: Transition<P, B, E>)
        requires
            self matches Transition::Done(a) ==> call_requires(mapper, (a,)),
        ensures
            self matches Transition::Done(a) ==> (r matches Transition::Done(b)
                && call_ensures(mapper, (a,), b)),
            self matches Transition::Parsing(p, d) ==> r == Transition::<P, B, E>::Parsing(p, d),
    {
        match self {
            Transition::Done(output) => Transition::Done(mapper(output)),
            Transition::Parsing(next, diagnostic) => Transition::Parsing(next, diagnostic),
        }
    }

    /// Apply a one-shot transform to the recoverable diagnostic riding on a
    /// `Parsing` transition, if one is present.
    pub fn map_errors<E2, F: FnOnce(E) -> E2>(self, mapper: F) -> (r: Transition<P, A, E2>)
        requires
            self matches Transition::Parsing(_, Some(e)) ==> call_requires(mapper, (e,)),
        ensures
            self matches Transition::Done(a) ==> r == Transition::<P, A, E2>::Done(a),
            self matches Transition::Parsing(p, Some(e)) ==> (r matches Transition::Parsing(
                p2,
                Some(e2),
            ) && p2 == p && call_ensures(mapper, (e,), e2)),
            self matches Transition::Parsing(p, None) ==> r == Transition::<P, A, E2>::Parsing(
                p,
                None,
            ),
    {
        match self {
            Transition::Done(output) => Transition::Done(output),
            Transition::Parsing(next, Some(errors)) => Transition::Parsing(
                next,
                Some(mapper(errors)),
            ),
            Transition::Parsing(next, None) => Transition::Parsing(next, None),
        }
    }
}

} // verus!
