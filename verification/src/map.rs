//! Transformation wrappers: each wraps one parser and rewrites its output,
//! its incoming elements, its recoverable diagnostics, its fatal abort, or
//! its completion result, while leaving its suspension behaviour
//! untouched: a wrapper consumes exactly one element per step and finishes
//! exactly when the wrapped parser does.
//!
//! The transforms are caller-supplied functions, so the transition
//! relations of these wrappers are stated through `call_ensures`; their
//! well-formedness demands that the transform accepts every value it may
//! be handed.
//!
//! Each wrapper names the types its transform produces as type parameters
//! of its own struct (held by a `PhantomData` field): the verifier needs
//! them anchored in the type itself rather than inferred from the
//! transform's signature.
use core::marker::PhantomData;

use vstd::prelude::*;

use crate::parser::{step_is_done, step_is_fatal, step_is_recov, FatalFailure, Parser,
    RecovFailure, Step, StepFailure, Transition};

verus! {

/// Rewrites the final output of `inner` by a one-shot transform applied at
/// the moment it finishes.
pub struct MapOutput<P, F, B> {
    pub inner: P,
    pub mapper: F,
    pub marker: PhantomData<B>,
}

impl<P, F, B> MapOutput<P, F, B> {
    /// Wrap `inner`, transforming its final output with `mapper`.
    pub fn new(inner: P, mapper: F) -> (r: Self)
        ensures
            r.inner == inner,
            r.mapper == mapper,
    {
        MapOutput { inner, mapper, marker: PhantomData }
    }
}

impl<I, A, B, P: Parser<I, Output = A>, F: FnOnce(A) -> B> Parser<I> for MapOutput<P, F, B> {
    type Output = B;

    type Error = P::Error;

    type Fatal = P::Fatal;

    open spec fn wf(self) -> bool {
        &&& self.inner.wf()
        &&& forall|a: A| call_requires(self.mapper, (a,))
    }

    open spec fn transits(
        self,
        input: I,
        r: Step<Self, Self::Output, Self::Error, Self::Fatal>,
    ) -> bool {
        exists|ir: Step<P, P::Output, P::Error, P::Fatal>|
            {
                &&& #[trigger] self.inner.transits(input, ir)
                &&& match ir {
                    Ok(Transition::Done(a)) => exists|b: B|
                        #[trigger] call_ensures(self.mapper, (a,), b) && step_is_done(r, b),
                    Ok(Transition::Parsing(p2, d)) => r matches Ok(Transition::Parsing(m2, d2))
                        && m2.inner == p2 && m2.mapper == self.mapper && d2 == d,
                    Err(StepFailure::Recoverable(rf)) => step_is_recov(r, rf.errors),
                    Err(StepFailure::Fatal(ff)) => step_is_fatal(r, ff.errors),
                }
            }
    }

    fn transit(self, input: I) -> (r: Step<Self, Self::Output, Self::Error, Self::Fatal>) {
        let ghost pre = self;
        let MapOutput { inner, mapper, marker } = self;
        let ir = inner.transit(input);
        let r: Step<Self, Self::Output, Self::Error, Self::Fatal> = match ir {
            Ok(Transition::Done(a)) => {
                let b = mapper(a);
                Ok(Transition::Done(b))
            },
            Ok(Transition::Parsing(p2, d)) => Ok(
                Transition::Parsing(MapOutput { inner: p2, mapper, marker: PhantomData }, d),
            ),
            Err(failure) => Err(failure),
        };
        proof {
            assert(pre.transits(input, r));
        }
        r
    }
}

/// Converts each incoming element before handing it to `inner`, so a
/// parser expecting one element type can be fed another through a
/// repeatable conversion.
pub struct MapInput<P, F, J> {
    pub inner: P,
    pub conv: F,
    pub marker: PhantomData<J>,
}

impl<P, F, J> MapInput<P, F, J> {
    /// Wrap `inner`, converting every incoming element with `conv`.
    pub fn new(inner: P, conv: F) -> (r: Self)
        ensures
            r.inner == inner,
            r.conv == conv,
    {
        MapInput { inner, conv, marker: PhantomData }
    }
}

impl<I, J, P: Parser<J>, F: Fn(I) -> J> Parser<I> for MapInput<P, F, J> {
    type Output = P::Output;

    type Error = P::Error;

    type Fatal = P::Fatal;

    open spec fn wf(self) -> bool {
        &&& self.inner.wf()
        &&& forall|i: I| call_requires(self.conv, (i,))
    }

    open spec fn transits(
        self,
        input: I,
        r: Step<Self, Self::Output, Self::Error, Self::Fatal>,
    ) -> bool {
        exists|j: J, ir: Step<P, P::Output, P::Error, P::Fatal>|
            {
                &&& #[trigger] call_ensures(self.conv, (input,), j)
                &&& #[trigger] self.inner.transits(j, ir)
                &&& match ir {
                    Ok(Transition::Done(a)) => step_is_done(r, a),
                    Ok(Transition::Parsing(p2, d)) => r matches Ok(Transition::Parsing(m2, d2))
                        && m2.inner == p2 && m2.conv == self.conv && d2 == d,
                    Err(StepFailure::Recoverable(rf)) => step_is_recov(r, rf.errors),
                    Err(StepFailure::Fatal(ff)) => step_is_fatal(r, ff.errors),
                }
            }
    }

    fn transit(self, input: I) -> (r: Step<Self, Self::Output, Self::Error, Self::Fatal>) {
        let ghost pre = self;
        let MapInput { inner, conv, marker } = self;
        let j = conv(input);
        let ir = inner.transit(j);
        let r: Step<Self, Self::Output, Self::Error, Self::Fatal> = match ir {
            Ok(Transition::Done(a)) => Ok(Transition::Done(a)),
            Ok(Transition::Parsing(p2, d)) => Ok(
                Transition::Parsing(MapInput { inner: p2, conv, marker: PhantomData }, d),
            ),
            Err(failure) => Err(failure),
        };
        proof {
            assert(pre.transits(input, r));
        }
        r
    }
}

/// Rewrites every recoverable diagnostic of `inner` — riding on a
/// suspension or carried by a terminal failure — by a repeatable
/// transform.
pub struct MapErrors<P, F, E2> {
    pub inner: P,
    pub mapper: F,
    pub marker: PhantomData<E2>,
}

impl<P, F, E2> MapErrors<P, F, E2> {
    /// Wrap `inner`, transforming each recoverable diagnostic with
    /// `mapper`.
    pub fn new(inner: P, mapper: F) -> (r: Self)
        ensures
            r.inner == inner,
            r.mapper == mapper,
    {
        MapErrors { inner, mapper, marker: PhantomData }
    }
}

impl<I, E, E2, P: Parser<I, Error = E>, F: Fn(E) -> E2> Parser<I> for MapErrors<P, F, E2> {
    type Output = P::Output;

    type Error = E2;

    type Fatal = P::Fatal;

    open spec fn wf(self) -> bool {
        &&& self.inner.wf()
        &&& forall|e: E| call_requires(self.mapper, (e,))
    }

    open spec fn transits(
        self,
        input: I,
        r: Step<Self, Self::Output, Self::Error, Self::Fatal>,
    ) -> bool {
        exists|ir: Step<P, P::Output, P::Error, P::Fatal>|
            {
                &&& #[trigger] self.inner.transits(input, ir)
                &&& match ir {
                    Ok(Transition::Done(a)) => step_is_done(r, a),
                    Ok(Transition::Parsing(p2, None)) => r matches Ok(Transition::Parsing(m2, d2))
                        && m2.inner == p2 && m2.mapper == self.mapper && d2 is None,
                    Ok(Transition::Parsing(p2, Some(e))) => exists|e2: E2|
                        {
                            &&& #[trigger] call_ensures(self.mapper, (e,), e2)
                            &&& r matches Ok(Transition::Parsing(m2, d2)) && m2.inner == p2
                                && m2.mapper == self.mapper && d2 == Some(e2)
                        },
                    Err(StepFailure::Recoverable(rf)) => exists|e2: E2|
                        #[trigger] call_ensures(self.mapper, (rf.errors,), e2) && step_is_recov(
                            r,
                            e2,
                        ),
                    Err(StepFailure::Fatal(ff)) => step_is_fatal(r, ff.errors),
                }
            }
    }

    fn transit(self, input: I) -> (r: Step<Self, Self::Output, Self::Error, Self::Fatal>) {
        let ghost pre = self;
        let MapErrors { inner, mapper, marker } = self;
        let ir = inner.transit(input);
        let r: Step<Self, Self::Output, Self::Error, Self::Fatal> = match ir {
            Ok(Transition::Done(a)) => Ok(Transition::Done(a)),
            Ok(Transition::Parsing(p2, None)) => Ok(
                Transition::Parsing(MapErrors { inner: p2, mapper, marker: PhantomData }, None),
            ),
            Ok(Transition::Parsing(p2, Some(e))) => {
                let e2 = mapper(e);
                Ok(
                    Transition::Parsing(
                        MapErrors { inner: p2, mapper, marker: PhantomData },
                        Some(e2),
                    ),
                )
            },
            Err(StepFailure::Recoverable(rf)) => {
                let e2 = mapper(rf.errors);
                Err(StepFailure::Recoverable(RecovFailure { errors: e2 }))
            },
            Err(StepFailure::Fatal(ff)) => Err(StepFailure::Fatal(ff)),
        };
        proof {
            assert(pre.transits(input, r));
        }
        r
    }
}

/// Rewrites the fatal abort of `inner`, if one ever occurs, by a one-shot
/// transform.
pub struct MapFatal<P, F, F2> {
    pub inner: P,
    pub mapper: F,
    pub marker: PhantomData<F2>,
}

impl<P, F, F2> MapFatal<P, F, F2> {
    /// Wrap `inner`, transforming its fatal abort with `mapper`.
    pub fn new(inner: P, mapper: F) -> (r: Self)
        ensures
            r.inner == inner,
            r.mapper == mapper,
    {
        MapFatal { inner, mapper, marker: PhantomData }
    }
}

impl<I, FA, F2, P: Parser<I, Fatal = FA>, F: FnOnce(FA) -> F2> Parser<I> for MapFatal<P, F, F2> {
    type Output = P::Output;

    type Error = P::Error;

    type Fatal = F2;

    open spec fn wf(self) -> bool {
        &&& self.inner.wf()
        &&& forall|f: FA| call_requires(self.mapper, (f,))
    }

    open spec fn transits(
        self,
        input: I,
        r: Step<Self, Self::Output, Self::Error, Self::Fatal>,
    ) -> bool {
        exists|ir: Step<P, P::Output, P::Error, P::Fatal>|
            {
                &&& #[trigger] self.inner.transits(input, ir)
                &&& match ir {
                    Ok(Transition::Done(a)) => step_is_done(r, a),
                    Ok(Transition::Parsing(p2, d)) => r matches Ok(Transition::Parsing(m2, d2))
                        && m2.inner == p2 && m2.mapper == self.mapper && d2 == d,
                    Err(StepFailure::Recoverable(rf)) => step_is_recov(r, rf.errors),
                    Err(StepFailure::Fatal(ff)) => exists|f2: F2|
                        #[trigger] call_ensures(self.mapper, (ff.errors,), f2) && step_is_fatal(
                            r,
                            f2,
                        ),
                }
            }
    }

    fn transit(self, input: I) -> (r: Step<Self, Self::Output, Self::Error, Self::Fatal>) {
        let ghost pre = self;
        let MapFatal { inner, mapper, marker } = self;
        let ir = inner.transit(input);
        let r: Step<Self, Self::Output, Self::Error, Self::Fatal> = match ir {
            Ok(Transition::Done(a)) => Ok(Transition::Done(a)),
            Ok(Transition::Parsing(p2, d)) => Ok(
                Transition::Parsing(MapFatal { inner: p2, mapper, marker: PhantomData }, d),
            ),
            Err(StepFailure::Recoverable(rf)) => Err(StepFailure::Recoverable(rf)),
            Err(StepFailure::Fatal(ff)) => {
                let f2 = mapper(ff.errors);
                Err(StepFailure::Fatal(FatalFailure { errors: f2 }))
            },
        };
        proof {
            assert(pre.transits(input, r));
        }
        r
    }
}

/// Reconciles success and fatal abort at the moment of completion: a
/// one-shot transform over the completion result may validate a final
/// output into a fatal abort, or recover a fatal abort into an output.
pub struct MapResult<P, F, B, F2> {
    pub inner: P,
    pub mapper: F,
    pub marker: PhantomData<(B, F2)>,
}

impl<P, F, B, F2> MapResult<P, F, B, F2> {
    /// Wrap `inner`, transforming its completion result with `mapper`.
    pub fn new(inner: P, mapper: F) -> (r: Self)
        ensures
            r.inner == inner,
            r.mapper == mapper,
    {
        MapResult { inner, mapper, marker: PhantomData }
    }
}

impl<I, A, FA, B, F2, P: Parser<I, Output = A, Fatal = FA>, F: FnOnce(Result<A, FA>) -> Result<
    B,
    F2,
>> Parser<I> for MapResult<P, F, B, F2> {
    type Output = B;

    type Error = P::Error;

    type Fatal = F2;

    open spec fn wf(self) -> bool {
        &&& self.inner.wf()
        &&& forall|x: Result<A, FA>| call_requires(self.mapper, (x,))
    }

    open spec fn transits(
        self,
        input: I,
        r: Step<Self, Self::Output, Self::Error, Self::Fatal>,
    ) -> bool {
        exists|ir: Step<P, P::Output, P::Error, P::Fatal>|
            {
                &&& #[trigger] self.inner.transits(input, ir)
                &&& match ir {
                    Ok(Transition::Done(a)) => exists|out: Result<B, F2>|
                        {
                            &&& #[trigger] call_ensures(
                                self.mapper,
                                (Ok::<A, FA>(a),),
                                out,
                            )
                            &&& match out {
                                Ok(b) => step_is_done(r, b),
                                Err(f2) => step_is_fatal(r, f2),
                            }
                        },
                    Ok(Transition::Parsing(p2, d)) => r matches Ok(Transition::Parsing(m2, d2))
                        && m2.inner == p2 && m2.mapper == self.mapper && d2 == d,
                    Err(StepFailure::Recoverable(rf)) => step_is_recov(r, rf.errors),
                    Err(StepFailure::Fatal(ff)) => exists|out: Result<B, F2>|
                        {
                            &&& #[trigger] call_ensures(
                                self.mapper,
                                (Err::<A, FA>(ff.errors),),
                                out,
                            )
                            &&& match out {
                                Ok(b) => step_is_done(r, b),
                                Err(f2) => step_is_fatal(r, f2),
                            }
                        },
                }
            }
    }

    fn transit(self, input: I) -> (r: Step<Self, Self::Output, Self::Error, Self::Fatal>) {
        let ghost pre = self;
        let MapResult { inner, mapper, marker } = self;
        let ir = inner.transit(input);
        let r: Step<Self, Self::Output, Self::Error, Self::Fatal> = match ir {
            Ok(Transition::Done(a)) => match mapper(Ok(a)) {
                Ok(b) => Ok(Transition::Done(b)),
                Err(f2) => Err(StepFailure::Fatal(FatalFailure { errors: f2 })),
            },
            Ok(Transition::Parsing(p2, d)) => Ok(
                Transition::Parsing(MapResult { inner: p2, mapper, marker: PhantomData }, d),
            ),
            Err(StepFailure::Recoverable(rf)) => Err(StepFailure::Recoverable(rf)),
            Err(StepFailure::Fatal(ff)) => match mapper(Err(ff.errors)) {
                Ok(b) => Ok(Transition::Done(b)),
                Err(f2) => Err(StepFailure::Fatal(FatalFailure { errors: f2 })),
            },
        };
        proof {
            assert(pre.transits(input, r));
        }
        r
    }
}

} // verus!
