//! Terminal matchers over single input elements.
//!
//! Each matcher is a one-step parser: its step either succeeds immediately
//! with the input element as output or fails immediately with the matching
//! diagnostic; it never suspends.  For element types whose `==` is known to
//! agree with its specification (`obeys_eq_spec`), the step result is pinned
//! down exactly.
use vstd::prelude::*;
use vstd::std_specs::cmp::PartialEqSpec;

use crate::error::{AnyOfError, EqualsError, NoneOfError, NotEqualsError};
use crate::parser::{NoFailure, Parser, RecovFailure, Step, StepFailure, Transition};

verus! {

/// Accepts any element and returns it as the output.
#[derive(Clone, Copy)]
pub struct Any;

impl<I> Parser<I> for Any {
    type Output = I;

    type Error = NoFailure;

    type Fatal = NoFailure;

    open spec fn wf(self) -> bool {
        true
    }

    open spec fn transits(self, input: I, r: Step<Self, I, NoFailure, NoFailure>) -> bool {
        r == Ok::<_, StepFailure<NoFailure, NoFailure>>(Transition::<Self, I, NoFailure>::Done(
            input,
        ))
    }

    fn transit(self, input: I) -> (r: Step<Self, I, NoFailure, NoFailure>) {
        Ok(Transition::Done(input))
    }
}

/// Accepts exactly one expected element.
#[derive(Clone, Copy)]
pub struct Equals<I>(pub I);

impl<I: PartialEq> Parser<I> for Equals<I> {
    type Output = I;

    type Error = EqualsError<I>;

    type Fatal = NoFailure;

    open spec fn wf(self) -> bool {
        true
    }

    open spec fn transits(self, input: I, r: Step<Self, I, EqualsError<I>, NoFailure>) -> bool {
        &&& !(r matches Ok(Transition::Parsing(_, _)))
        &&& !(r matches Err(StepFailure::Fatal(_)))
        &&& r matches Ok(Transition::Done(out)) ==> out == input
        &&& r matches Err(StepFailure::Recoverable(rf)) ==> rf.errors == (EqualsError {
            expected: self.0,
            found: input,
        })
        &&& I::obeys_eq_spec() ==> r == (if self.0.eq_spec(&input) {
            Ok::<_, StepFailure<EqualsError<I>, NoFailure>>(
                Transition::<Self, I, EqualsError<I>>::Done(input),
            )
        } else {
            Err(StepFailure::Recoverable(
                RecovFailure { errors: EqualsError { expected: self.0, found: input } },
            ))
        })
    }

    fn transit(self, input: I) -> (r: Step<Self, I, EqualsError<I>, NoFailure>) {
        if self.0 == input {
            Ok(Transition::Done(input))
        } else {
            Err(StepFailure::Recoverable(
                RecovFailure { errors: EqualsError { expected: self.0, found: input } },
            ))
        }
    }
}

/// Accepts every element but one excluded value.
#[derive(Clone, Copy)]
pub struct NotEquals<I>(pub I);

impl<I: PartialEq> Parser<I> for NotEquals<I> {
    type Output = I;

    type Error = NotEqualsError<I>;

    type Fatal = NoFailure;

    open spec fn wf(self) -> bool {
        true
    }

    open spec fn transits(self, input: I, r: Step<Self, I, NotEqualsError<I>, NoFailure>) -> bool {
        &&& !(r matches Ok(Transition::Parsing(_, _)))
        &&& !(r matches Err(StepFailure::Fatal(_)))
        &&& r matches Ok(Transition::Done(out)) ==> out == input
        &&& r matches Err(StepFailure::Recoverable(rf)) ==> rf.errors == (NotEqualsError {
            unexpected: self.0,
            found: input,
        })
        &&& I::obeys_eq_spec() ==> r == (if self.0.eq_spec(&input) {
            Err::<Transition<Self, I, NotEqualsError<I>>, _>(StepFailure::<
                NotEqualsError<I>,
                NoFailure,
            >::Recoverable(
                RecovFailure { errors: NotEqualsError { unexpected: self.0, found: input } },
            ))
        } else {
            Ok(Transition::Done(input))
        })
    }

    fn transit(self, input: I) -> (r: Step<Self, I, NotEqualsError<I>, NoFailure>) {
        if self.0 == input {
            Err(StepFailure::Recoverable(
                RecovFailure { errors: NotEqualsError { unexpected: self.0, found: input } },
            ))
        } else {
            Ok(Transition::Done(input))
        }
    }
}

/// Whether some element of `s` equals `x` according to the specification
/// of `==`.
pub open spec fn member_of<I: PartialEq>(s: Seq<I>, x: I) -> bool {
    exists|j: int| 0 <= j < s.len() && #[trigger] s[j].eq_spec(&x)
}

/// Accepts any element out of a list of expected values.
#[derive(Clone)]
pub struct AnyOf<I>(pub Vec<I>);

impl<I: PartialEq + Copy> Parser<I> for AnyOf<I> {
    type Output = I;

    type Error = AnyOfError<I>;

    type Fatal = NoFailure;

    open spec fn wf(self) -> bool {
        true
    }

    open spec fn transits(self, input: I, r: Step<Self, I, AnyOfError<I>, NoFailure>) -> bool {
        &&& !(r matches Ok(Transition::Parsing(_, _)))
        &&& !(r matches Err(StepFailure::Fatal(_)))
        &&& r matches Ok(Transition::Done(out)) ==> out == input
        &&& r matches Err(StepFailure::Recoverable(rf)) ==> rf.errors == (AnyOfError {
            expecteds: self.0,
            found: input,
        })
        &&& I::obeys_eq_spec() ==> r == (if member_of(self.0@, input) {
            Ok::<_, StepFailure<AnyOfError<I>, NoFailure>>(
                Transition::<Self, I, AnyOfError<I>>::Done(input),
            )
        } else {
            Err(StepFailure::Recoverable(
                RecovFailure { errors: AnyOfError { expecteds: self.0, found: input } },
            ))
        })
    }

    fn transit(self, input: I) -> (r: Step<Self, I, AnyOfError<I>, NoFailure>) {
        let mut matched = false;
        let mut i: usize = 0;
        let n = self.0.len();
        while i < n
            invariant
                i <= n,
                n == self.0@.len(),
                I::obeys_eq_spec() ==> (matched <==> member_of(self.0@.take(i as int), input)),
            decreases n - i,
        {
            if self.0[i] == input {
                matched = true;
            }
            proof {
                assert(self.0@.take(i + 1).drop_last() =~= self.0@.take(i as int));
                assert(self.0@.take(i + 1).last() == self.0@[i as int]);
                if I::obeys_eq_spec() && self.0@[i as int].eq_spec(&input) {
                    assert(member_of(self.0@.take(i + 1), input));
                }
                if I::obeys_eq_spec() && member_of(self.0@.take(i + 1), input)
                    && !self.0@[i as int].eq_spec(&input) {
                    let j = choose|j: int|
                        0 <= j < i + 1 && #[trigger] self.0@.take(i + 1)[j].eq_spec(&input);
                    assert(self.0@.take(i as int)[j] == self.0@.take(i + 1)[j]);
                }
            }
            i += 1;
        }
        proof {
            assert(self.0@.take(n as int) =~= self.0@);
        }
        if matched {
            Ok(Transition::Done(input))
        } else {
            Err(StepFailure::Recoverable(
                RecovFailure { errors: AnyOfError { expecteds: self.0, found: input } },
            ))
        }
    }
}

/// Accepts any element outside a list of excluded values.
#[derive(Clone)]
pub struct NoneOf<I>(pub Vec<I>);

impl<I: PartialEq + Copy> Parser<I> for NoneOf<I> {
    type Output = I;

    type Error = NoneOfError<I>;

    type Fatal = NoFailure;

    open spec fn wf(self) -> bool {
        true
    }

    open spec fn transits(self, input: I, r: Step<Self, I, NoneOfError<I>, NoFailure>) -> bool {
        &&& !(r matches Ok(Transition::Parsing(_, _)))
        &&& !(r matches Err(StepFailure::Fatal(_)))
        &&& r matches Ok(Transition::Done(out)) ==> out == input
        &&& r matches Err(StepFailure::Recoverable(rf)) ==> rf.errors == (NoneOfError {
            unexpecteds: self.0,
            found: input,
        })
        &&& I::obeys_eq_spec() ==> r == (if member_of(self.0@, input) {
            Err::<Transition<Self, I, NoneOfError<I>>, _>(StepFailure::<
                NoneOfError<I>,
                NoFailure,
            >::Recoverable(
                RecovFailure { errors: NoneOfError { unexpecteds: self.0, found: input } },
            ))
        } else {
            Ok(Transition::Done(input))
        })
    }

    fn transit(self, input: I) -> (r: Step<Self, I, NoneOfError<I>, NoFailure>) {
        let mut matched = false;
        let mut i: usize = 0;
        let n = self.0.len();
        while i < n
            invariant
                i <= n,
                n == self.0@.len(),
                I::obeys_eq_spec() ==> (matched <==> member_of(self.0@.take(i as int), input)),
            decreases n - i,
        {
            if self.0[i] == input {
                matched = true;
            }
            proof {
                assert(self.0@.take(i + 1).drop_last() =~= self.0@.take(i as int));
                assert(self.0@.take(i + 1).last() == self.0@[i as int]);
                if I::obeys_eq_spec() && self.0@[i as int].eq_spec(&input) {
                    assert(member_of(self.0@.take(i + 1), input));
                }
                if I::obeys_eq_spec() && member_of(self.0@.take(i + 1), input)
                    && !self.0@[i as int].eq_spec(&input) {
                    let j = choose|j: int|
                        0 <= j < i + 1 && #[trigger] self.0@.take(i + 1)[j].eq_spec(&input);
                    assert(self.0@.take(i as int)[j] == self.0@.take(i + 1)[j]);
                }
            }
            i += 1;
        }
        proof {
            assert(self.0@.take(n as int) =~= self.0@);
        }
        if matched {
            Err(StepFailure::Recoverable(
                RecovFailure { errors: NoneOfError { unexpecteds: self.0, found: input } },
            ))
        } else {
            Ok(Transition::Done(input))
        }
    }
}

} // verus!
