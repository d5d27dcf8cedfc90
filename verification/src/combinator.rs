//! Combinators that compose two parsers: alternation, which tries both
//! branches and keeps the first to finish, and the two sequencing joins.
//!
//! Each combinator owns its children's current parse state as plain values
//! and replaces it wholesale on every step; the states a combinator can be
//! in are the variants of its state enum, so no combinator can hold a
//! child that has already been consumed.
use core::marker::PhantomData;

use vstd::prelude::*;

use crate::error::Chain;
use crate::parser::{step_is_done, step_is_fatal, step_is_recov, Parser, RecovFailure, Step,
    StepFailure, Transition};

verus! {

/// The optional diagnostics of the two branches of one step, combined:
/// absent when neither branch reported one.
pub open spec fn chain_opt<E0, E1>(l: Option<E0>, r: Option<E1>) -> Option<Chain<E0, E1>> {
    if l is Some || r is Some {
        Some(Chain { left: l, right: r })
    } else {
        None
    }
}

/// Combine the optional diagnostics of two branches of one step.
fn combine_diagnostics<E0, E1>(l: Option<E0>, r: Option<E1>) -> (d: Option<Chain<E0, E1>>)
    ensures
        d == chain_opt(l, r),
{
    match (l, r) {
        (None, None) => None,
        (l2, r2) => Some(Chain { left: l2, right: r2 }),
    }
}

/// The progress of an alternation: either both branches are still
/// candidates, or one has failed recoverably and the alternation has
/// narrowed to the survivor, remembering the discarded diagnostic so it
/// can be surfaced if the survivor also fails.
pub enum OrState<P, Q, E0, E1> {
    Both { left: P, right: Q },
    OnlyLeft { left: P, discarded: Option<E1> },
    OnlyRight { right: Q, discarded: Option<E0> },
}

/// Alternation: feed every element to both branches, left first; the first
/// branch to finish supplies the output, with the left one winning when
/// both finish on the same step.  A fatal abort of either branch aborts
/// the whole alternation; a recoverable failure of one branch narrows it
/// to the other.
pub struct Or<P, Q, I> where P: Parser<I>, Q: Parser<I, Output = P::Output, Fatal = P::Fatal> {
    pub state: OrState<P, Q, P::Error, Q::Error>,
    pub marker: PhantomData<I>,
}

impl<P, Q, I: Copy> Or<P, Q, I> where
    P: Parser<I>,
    Q: Parser<I, Output = P::Output, Fatal = P::Fatal>,
 {
    /// An alternation of `left` and `right`, both still candidates.
    pub fn new(left: P, right: Q) -> (r: Self)
        ensures
            r.state == (OrState::<P, Q, P::Error, Q::Error>::Both { left, right }),
            left.wf() && right.wf() ==> r.wf(),
    {
        Or { state: OrState::Both { left, right }, marker: PhantomData }
    }
}

/// What an alternation with both branches pending returns, given what its
/// left branch returned for the same element.
pub open spec fn or_after_left<P, Q, I>(
    right: Q,
    input: I,
    lr: Step<P, P::Output, P::Error, P::Fatal>,
    r: Step<Or<P, Q, I>, P::Output, Chain<P::Error, Q::Error>, P::Fatal>,
) -> bool where I: Copy, P: Parser<I>, Q: Parser<I, Output = P::Output, Fatal = P::Fatal> {
    match lr {
        Ok(Transition::Done(a)) => step_is_done(r, a),
        Err(StepFailure::Fatal(ff)) => step_is_fatal(r, ff.errors),
        Ok(Transition::Parsing(l2, ld)) => exists|rr: Step<Q, Q::Output, Q::Error, Q::Fatal>|
            {
                &&& #[trigger] right.transits(input, rr)
                &&& match rr {
                    Ok(Transition::Done(b)) => step_is_done(r, b),
                    Err(StepFailure::Fatal(ff)) => step_is_fatal(r, ff.errors),
                    Ok(Transition::Parsing(r2, rd)) => r matches Ok(Transition::Parsing(or2, d))
                        && or2.state == (OrState::<P, Q, P::Error, Q::Error>::Both {
                        left: l2,
                        right: r2,
                    }) && d == chain_opt(ld, rd),
                    Err(StepFailure::Recoverable(rf)) => r matches Ok(Transition::Parsing(or2, d))
                        && or2.state == (OrState::<P, Q, P::Error, Q::Error>::OnlyLeft {
                        left: l2,
                        discarded: Some(rf.errors),
                    }) && d == chain_opt(ld, None::<Q::Error>),
                }
            },
        Err(StepFailure::Recoverable(lf)) => exists|rr: Step<Q, Q::Output, Q::Error, Q::Fatal>|
            {
                &&& #[trigger] right.transits(input, rr)
                &&& match rr {
                    Ok(Transition::Done(b)) => step_is_done(r, b),
                    Err(StepFailure::Fatal(ff)) => step_is_fatal(r, ff.errors),
                    Ok(Transition::Parsing(r2, rd)) => r matches Ok(Transition::Parsing(or2, d))
                        && or2.state == (OrState::<P, Q, P::Error, Q::Error>::OnlyRight {
                        right: r2,
                        discarded: Some(lf.errors),
                    }) && d == chain_opt(None::<P::Error>, rd),
                    Err(StepFailure::Recoverable(rf)) => step_is_recov(
                        r,
                        Chain { left: Some(lf.errors), right: Some(rf.errors) },
                    ),
                }
            },
    }
}

/// What an alternation narrowed to its left branch returns, given what
/// that branch returned.
pub open spec fn or_only_left<P, Q, I>(
    discarded: Option<Q::Error>,
    lr: Step<P, P::Output, P::Error, P::Fatal>,
    r: Step<Or<P, Q, I>, P::Output, Chain<P::Error, Q::Error>, P::Fatal>,
) -> bool where I: Copy, P: Parser<I>, Q: Parser<I, Output = P::Output, Fatal = P::Fatal> {
    match lr {
        Ok(Transition::Done(a)) => step_is_done(r, a),
        Ok(Transition::Parsing(l2, ld)) => r matches Ok(Transition::Parsing(or2, d)) && or2.state
            == (OrState::<P, Q, P::Error, Q::Error>::OnlyLeft { left: l2, discarded })
            && d == chain_opt(ld, None::<Q::Error>),
        Err(StepFailure::Recoverable(lf)) => step_is_recov(
            r,
            Chain { left: Some(lf.errors), right: discarded },
        ),
        Err(StepFailure::Fatal(ff)) => step_is_fatal(r, ff.errors),
    }
}

/// What an alternation narrowed to its right branch returns, given what
/// that branch returned.
pub open spec fn or_only_right<P, Q, I>(
    discarded: Option<P::Error>,
    rr: Step<Q, Q::Output, Q::Error, Q::Fatal>,
    r: Step<Or<P, Q, I>, P::Output, Chain<P::Error, Q::Error>, P::Fatal>,
) -> bool where I: Copy, P: Parser<I>, Q: Parser<I, Output = P::Output, Fatal = P::Fatal> {
    match rr {
        Ok(Transition::Done(b)) => step_is_done(r, b),
        Ok(Transition::Parsing(r2, rd)) => r matches Ok(Transition::Parsing(or2, d)) && or2.state
            == (OrState::<P, Q, P::Error, Q::Error>::OnlyRight { right: r2, discarded })
            && d == chain_opt(None::<P::Error>, rd),
        Err(StepFailure::Recoverable(rf)) => step_is_recov(
            r,
            Chain { left: discarded, right: Some(rf.errors) },
        ),
        Err(StepFailure::Fatal(ff)) => step_is_fatal(r, ff.errors),
    }
}

impl<P, Q, I: Copy> Parser<I> for Or<P, Q, I> where
    P: Parser<I>,
    Q: Parser<I, Output = P::Output, Fatal = P::Fatal>,
 {
    type Output = P::Output;

    type Error = Chain<P::Error, Q::Error>;

    type Fatal = P::Fatal;

    open spec fn wf(self) -> bool {
        match self.state {
            OrState::Both { left, right } => left.wf() && right.wf(),
            OrState::OnlyLeft { left, discarded } => left.wf(),
            OrState::OnlyRight { right, discarded } => right.wf(),
        }
    }

    open spec fn transits(
        self,
        input: I,
        r: Step<Self, Self::Output, Self::Error, Self::Fatal>,
    ) -> bool {
        match self.state {
            OrState::Both { left, right } => exists|lr: Step<P, P::Output, P::Error, P::Fatal>|
                #[trigger] left.transits(input, lr) && or_after_left(right, input, lr, r),
            OrState::OnlyLeft { left, discarded } => exists|
                lr: Step<P, P::Output, P::Error, P::Fatal>,
            |
                #[trigger] left.transits(input, lr) && or_only_left::<P, Q, I>(discarded, lr, r),
            OrState::OnlyRight { right, discarded } => exists|
                rr: Step<Q, Q::Output, Q::Error, Q::Fatal>,
            |
                #[trigger] right.transits(input, rr) && or_only_right::<P, Q, I>(discarded, rr, r),
        }
    }

    fn transit(self, input: I) -> (r: Step<Self, Self::Output, Self::Error, Self::Fatal>) {
        let ghost pre = self;
        match self.state {
            OrState::Both { left, right } => {
                let ghost right0 = right;
                let lr = left.transit(input);
                let ghost lr0 = lr;
                let r: Step<Self, Self::Output, Self::Error, Self::Fatal> = match lr {
                    Ok(Transition::Done(a)) => Ok(Transition::Done(a)),
                    Err(StepFailure::Fatal(ff)) => Err(StepFailure::Fatal(ff)),
                    Ok(Transition::Parsing(l2, ld)) => {
                        let rr = right.transit(input);
                        let r2: Step<Self, Self::Output, Self::Error, Self::Fatal> = match rr {
                            Ok(Transition::Done(b)) => Ok(Transition::Done(b)),
                            Err(StepFailure::Fatal(ff)) => Err(StepFailure::Fatal(ff)),
                            Ok(Transition::Parsing(r2, rd)) => Ok(
                                Transition::Parsing(
                                    Or {
                                        state: OrState::Both { left: l2, right: r2 },
                                        marker: PhantomData,
                                    },
                                    combine_diagnostics(ld, rd),
                                ),
                            ),
                            Err(StepFailure::Recoverable(rf)) => Ok(
                                Transition::Parsing(
                                    Or {
                                        state: OrState::OnlyLeft {
                                            left: l2,
                                            discarded: Some(rf.errors),
                                        },
                                        marker: PhantomData,
                                    },
                                    combine_diagnostics(ld, None),
                                ),
                            ),
                        };
                        r2
                    },
                    Err(StepFailure::Recoverable(lf)) => {
                        let rr = right.transit(input);
                        let r2: Step<Self, Self::Output, Self::Error, Self::Fatal> = match rr {
                            Ok(Transition::Done(b)) => Ok(Transition::Done(b)),
                            Err(StepFailure::Fatal(ff)) => Err(StepFailure::Fatal(ff)),
                            Ok(Transition::Parsing(r2, rd)) => Ok(
                                Transition::Parsing(
                                    Or {
                                        state: OrState::OnlyRight {
                                            right: r2,
                                            discarded: Some(lf.errors),
                                        },
                                        marker: PhantomData,
                                    },
                                    combine_diagnostics(None, rd),
                                ),
                            ),
                            Err(StepFailure::Recoverable(rf)) => Err(
                                StepFailure::Recoverable(
                                    RecovFailure {
                                        errors: Chain {
                                            left: Some(lf.errors),
                                            right: Some(rf.errors),
                                        },
                                    },
                                ),
                            ),
                        };
                        r2
                    },
                };
                proof {
                    assert(or_after_left(right0, input, lr0, r));
                    assert(pre.transits(input, r));
                }
                r
            },
            OrState::OnlyLeft { left, discarded } => {
                let ghost disc0 = discarded;
                let lr = left.transit(input);
                let ghost lr0 = lr;
                let r: Step<Self, Self::Output, Self::Error, Self::Fatal> = match lr {
                    Ok(Transition::Done(a)) => Ok(Transition::Done(a)),
                    Ok(Transition::Parsing(l2, ld)) => Ok(
                        Transition::Parsing(
                            Or { state: OrState::OnlyLeft { left: l2, discarded }, marker: PhantomData },
                            combine_diagnostics(ld, None),
                        ),
                    ),
                    Err(StepFailure::Recoverable(lf)) => Err(
                        StepFailure::Recoverable(
                            RecovFailure {
                                errors: Chain { left: Some(lf.errors), right: discarded },
                            },
                        ),
                    ),
                    Err(StepFailure::Fatal(ff)) => Err(StepFailure::Fatal(ff)),
                };
                proof {
                    assert(or_only_left::<P, Q, I>(disc0, lr0, r));
                    assert(pre.transits(input, r));
                }
                r
            },
            OrState::OnlyRight { right, discarded } => {
                let ghost disc0 = discarded;
                let rr = right.transit(input);
                let ghost rr0 = rr;
                let r: Step<Self, Self::Output, Self::Error, Self::Fatal> = match rr {
                    Ok(Transition::Done(b)) => Ok(Transition::Done(b)),
                    Ok(Transition::Parsing(r2, rd)) => Ok(
                        Transition::Parsing(
                            Or {
                                state: OrState::OnlyRight { right: r2, discarded },
                                marker: PhantomData,
                            },
                            combine_diagnostics(None, rd),
                        ),
                    ),
                    Err(StepFailure::Recoverable(rf)) => Err(
                        StepFailure::Recoverable(
                            RecovFailure {
                                errors: Chain { left: discarded, right: Some(rf.errors) },
                            },
                        ),
                    ),
                    Err(StepFailure::Fatal(ff)) => Err(StepFailure::Fatal(ff)),
                };
                proof {
                    assert(or_only_right::<P, Q, I>(disc0, rr0, r));
                    assert(pre.transits(input, r));
                }
                r
            },
        }
    }
}

/// The progress of a parallel join: which of the two children, fed the
/// same elements, have already finished; a finished child's output is held
/// while the other keeps consuming.  A join with both children finished
/// does not exist: it returns the pair instead.
pub enum AndState<P, Q, A, B> {
    BothRunning { left: P, right: Q },
    LeftDone { output: A, right: Q },
    RightDone { left: P, output: B },
}

/// Parallel join: both children receive every element, left first, and
/// each finishes independently; the join finishes on the step that
/// completes the later child, pairing the outputs.  Any failure of either
/// child fails the join at once.
pub struct And<P, Q, I> where P: Parser<I>, Q: Parser<I, Fatal = P::Fatal> {
    pub state: AndState<P, Q, P::Output, Q::Output>,
    pub marker: PhantomData<I>,
}

impl<P, Q, I: Copy> And<P, Q, I> where P: Parser<I>, Q: Parser<I, Fatal = P::Fatal> {
    /// A parallel join of `left` and `right`, both still running.
    pub fn new(left: P, right: Q) -> (r: Self)
        ensures
            r.state == (AndState::<P, Q, P::Output, Q::Output>::BothRunning { left, right }),
            left.wf() && right.wf() ==> r.wf(),
    {
        And { state: AndState::BothRunning { left, right }, marker: PhantomData }
    }
}

/// What a parallel join with both children running returns, given what its
/// left child returned for the same element.
pub open spec fn and_both<P, Q, I>(
    right: Q,
    input: I,
    lr: Step<P, P::Output, P::Error, P::Fatal>,
    r: Step<And<P, Q, I>, (P::Output, Q::Output), Chain<P::Error, Q::Error>, P::Fatal>,
) -> bool where I: Copy, P: Parser<I>, Q: Parser<I, Fatal = P::Fatal> {
    match lr {
        Err(StepFailure::Recoverable(lf)) => step_is_recov(
            r,
            Chain { left: Some(lf.errors), right: None },
        ),
        Err(StepFailure::Fatal(ff)) => step_is_fatal(r, ff.errors),
        Ok(Transition::Done(a)) => exists|rr: Step<Q, Q::Output, Q::Error, Q::Fatal>|
            {
                &&& #[trigger] right.transits(input, rr)
                &&& match rr {
                    Ok(Transition::Done(b)) => step_is_done(r, (a, b)),
                    Ok(Transition::Parsing(q2, rd)) => r matches Ok(Transition::Parsing(and2, d))
                        && and2.state == (AndState::<P, Q, P::Output, Q::Output>::LeftDone {
                        output: a,
                        right: q2,
                    }) && d == chain_opt(None::<P::Error>, rd),
                    Err(StepFailure::Recoverable(rf)) => step_is_recov(
                        r,
                        Chain { left: None, right: Some(rf.errors) },
                    ),
                    Err(StepFailure::Fatal(ff)) => step_is_fatal(r, ff.errors),
                }
            },
        Ok(Transition::Parsing(p2, ld)) => exists|rr: Step<Q, Q::Output, Q::Error, Q::Fatal>|
            {
                &&& #[trigger] right.transits(input, rr)
                &&& match rr {
                    Ok(Transition::Done(b)) => r matches Ok(Transition::Parsing(and2, d))
                        && and2.state == (AndState::<P, Q, P::Output, Q::Output>::RightDone {
                        left: p2,
                        output: b,
                    }) && d == chain_opt(ld, None::<Q::Error>),
                    Ok(Transition::Parsing(q2, rd)) => r matches Ok(Transition::Parsing(and2, d))
                        && and2.state == (AndState::<P, Q, P::Output, Q::Output>::BothRunning {
                        left: p2,
                        right: q2,
                    }) && d == chain_opt(ld, rd),
                    Err(StepFailure::Recoverable(rf)) => step_is_recov(
                        r,
                        Chain { left: None, right: Some(rf.errors) },
                    ),
                    Err(StepFailure::Fatal(ff)) => step_is_fatal(r, ff.errors),
                }
            },
    }
}

/// What a parallel join whose left child already finished with `a`
/// returns, given what its right child returned.
pub open spec fn and_left_done<P, Q, I>(
    a: P::Output,
    rr: Step<Q, Q::Output, Q::Error, Q::Fatal>,
    r: Step<And<P, Q, I>, (P::Output, Q::Output), Chain<P::Error, Q::Error>, P::Fatal>,
) -> bool where I: Copy, P: Parser<I>, Q: Parser<I, Fatal = P::Fatal> {
    match rr {
        Ok(Transition::Done(b)) => step_is_done(r, (a, b)),
        Ok(Transition::Parsing(q2, rd)) => r matches Ok(Transition::Parsing(and2, d)) && and2.state
            == (AndState::<P, Q, P::Output, Q::Output>::LeftDone { output: a, right: q2 })
            && d == chain_opt(None::<P::Error>, rd),
        Err(StepFailure::Recoverable(rf)) => step_is_recov(
            r,
            Chain { left: None, right: Some(rf.errors) },
        ),
        Err(StepFailure::Fatal(ff)) => step_is_fatal(r, ff.errors),
    }
}

/// What a parallel join whose right child already finished with `b`
/// returns, given what its left child returned.
pub open spec fn and_right_done<P, Q, I>(
    b: Q::Output,
    lr: Step<P, P::Output, P::Error, P::Fatal>,
    r: Step<And<P, Q, I>, (P::Output, Q::Output), Chain<P::Error, Q::Error>, P::Fatal>,
) -> bool where I: Copy, P: Parser<I>, Q: Parser<I, Fatal = P::Fatal> {
    match lr {
        Ok(Transition::Done(a)) => step_is_done(r, (a, b)),
        Ok(Transition::Parsing(p2, ld)) => r matches Ok(Transition::Parsing(and2, d)) && and2.state
            == (AndState::<P, Q, P::Output, Q::Output>::RightDone { left: p2, output: b })
            && d == chain_opt(ld, None::<Q::Error>),
        Err(StepFailure::Recoverable(lf)) => step_is_recov(
            r,
            Chain { left: Some(lf.errors), right: None },
        ),
        Err(StepFailure::Fatal(ff)) => step_is_fatal(r, ff.errors),
    }
}

impl<P, Q, I: Copy> Parser<I> for And<P, Q, I> where
    P: Parser<I>,
    Q: Parser<I, Fatal = P::Fatal>,
 {
    type Output = (P::Output, Q::Output);

    type Error = Chain<P::Error, Q::Error>;

    type Fatal = P::Fatal;

    open spec fn wf(self) -> bool {
        match self.state {
            AndState::BothRunning { left, right } => left.wf() && right.wf(),
            AndState::LeftDone { output, right } => right.wf(),
            AndState::RightDone { left, output } => left.wf(),
        }
    }

    open spec fn transits(
        self,
        input: I,
        r: Step<Self, Self::Output, Self::Error, Self::Fatal>,
    ) -> bool {
        match self.state {
            AndState::BothRunning { left, right } => exists|
                lr: Step<P, P::Output, P::Error, P::Fatal>,
            |
                #[trigger] left.transits(input, lr) && and_both(right, input, lr, r),
            AndState::LeftDone { output, right } => exists|
                rr: Step<Q, Q::Output, Q::Error, Q::Fatal>,
            |
                #[trigger] right.transits(input, rr) && and_left_done::<P, Q, I>(output, rr, r),
            AndState::RightDone { left, output } => exists|
                lr: Step<P, P::Output, P::Error, P::Fatal>,
            |
                #[trigger] left.transits(input, lr) && and_right_done::<P, Q, I>(output, lr, r),
        }
    }

    fn transit(self, input: I) -> (r: Step<Self, Self::Output, Self::Error, Self::Fatal>) {
        let ghost pre = self;
        match self.state {
            AndState::BothRunning { left, right } => {
                let ghost right0 = right;
                let lr = left.transit(input);
                let ghost lr0 = lr;
                let r: Step<Self, Self::Output, Self::Error, Self::Fatal> = match lr {
                    Err(StepFailure::Recoverable(lf)) => Err(
                        StepFailure::Recoverable(
                            RecovFailure {
                                errors: Chain { left: Some(lf.errors), right: None },
                            },
                        ),
                    ),
                    Err(StepFailure::Fatal(ff)) => Err(StepFailure::Fatal(ff)),
                    Ok(Transition::Done(a)) => {
                        let rr = right.transit(input);
                        let r2: Step<Self, Self::Output, Self::Error, Self::Fatal> = match rr {
                            Ok(Transition::Done(b)) => Ok(Transition::Done((a, b))),
                            Ok(Transition::Parsing(q2, rd)) => Ok(
                                Transition::Parsing(
                                    And {
                                        state: AndState::LeftDone { output: a, right: q2 },
                                        marker: PhantomData,
                                    },
                                    combine_diagnostics(None, rd),
                                ),
                            ),
                            Err(StepFailure::Recoverable(rf)) => Err(
                                StepFailure::Recoverable(
                                    RecovFailure {
                                        errors: Chain { left: None, right: Some(rf.errors) },
                                    },
                                ),
                            ),
                            Err(StepFailure::Fatal(ff)) => Err(StepFailure::Fatal(ff)),
                        };
                        r2
                    },
                    Ok(Transition::Parsing(p2, ld)) => {
                        let rr = right.transit(input);
                        let r2: Step<Self, Self::Output, Self::Error, Self::Fatal> = match rr {
                            Ok(Transition::Done(b)) => Ok(
                                Transition::Parsing(
                                    And {
                                        state: AndState::RightDone { left: p2, output: b },
                                        marker: PhantomData,
                                    },
                                    combine_diagnostics(ld, None),
                                ),
                            ),
                            Ok(Transition::Parsing(q2, rd)) => Ok(
                                Transition::Parsing(
                                    And {
                                        state: AndState::BothRunning { left: p2, right: q2 },
                                        marker: PhantomData,
                                    },
                                    combine_diagnostics(ld, rd),
                                ),
                            ),
                            Err(StepFailure::Recoverable(rf)) => Err(
                                StepFailure::Recoverable(
                                    RecovFailure {
                                        errors: Chain { left: None, right: Some(rf.errors) },
                                    },
                                ),
                            ),
                            Err(StepFailure::Fatal(ff)) => Err(StepFailure::Fatal(ff)),
                        };
                        r2
                    },
                };
                proof {
                    assert(and_both(right0, input, lr0, r));
                    assert(pre.transits(input, r));
                }
                r
            },
            AndState::LeftDone { output, right } => {
                let ghost out0 = output;
                let rr = right.transit(input);
                let ghost rr0 = rr;
                let r: Step<Self, Self::Output, Self::Error, Self::Fatal> = match rr {
                    Ok(Transition::Done(b)) => Ok(Transition::Done((output, b))),
                    Ok(Transition::Parsing(q2, rd)) => Ok(
                        Transition::Parsing(
                            And {
                                state: AndState::LeftDone { output, right: q2 },
                                marker: PhantomData,
                            },
                            combine_diagnostics(None, rd),
                        ),
                    ),
                    Err(StepFailure::Recoverable(rf)) => Err(
                        StepFailure::Recoverable(
                            RecovFailure {
                                errors: Chain { left: None, right: Some(rf.errors) },
                            },
                        ),
                    ),
                    Err(StepFailure::Fatal(ff)) => Err(StepFailure::Fatal(ff)),
                };
                proof {
                    assert(and_left_done::<P, Q, I>(out0, rr0, r));
                    assert(pre.transits(input, r));
                }
                r
            },
            AndState::RightDone { left, output } => {
                let ghost out0 = output;
                let lr = left.transit(input);
                let ghost lr0 = lr;
                let r: Step<Self, Self::Output, Self::Error, Self::Fatal> = match lr {
                    Ok(Transition::Done(a)) => Ok(Transition::Done((a, output))),
                    Ok(Transition::Parsing(p2, ld)) => Ok(
                        Transition::Parsing(
                            And {
                                state: AndState::RightDone { left: p2, output },
                                marker: PhantomData,
                            },
                            combine_diagnostics(ld, None),
                        ),
                    ),
                    Err(StepFailure::Recoverable(lf)) => Err(
                        StepFailure::Recoverable(
                            RecovFailure {
                                errors: Chain { left: Some(lf.errors), right: None },
                            },
                        ),
                    ),
                    Err(StepFailure::Fatal(ff)) => Err(StepFailure::Fatal(ff)),
                };
                proof {
                    assert(and_right_done::<P, Q, I>(out0, lr0, r));
                    assert(pre.transits(input, r));
                }
                r
            },
        }
    }
}

/// The progress of an ordered join: either the left child is still
/// consuming elements, or it has finished and its output is held while the
/// right child consumes the elements that follow.
pub enum ThenState<P, Q, A> {
    First { left: P, right: Q },
    Second { output: A, right: Q },
}

/// Ordered join: the left child consumes elements exclusively until it
/// finishes; only then does the right child begin consuming the subsequent
/// elements.  The join finishes with the pair of outputs when the right
/// child does; any failure of the active child fails the join at once.
pub struct Then<P, Q, I> where P: Parser<I>, Q: Parser<I, Fatal = P::Fatal> {
    pub state: ThenState<P, Q, P::Output>,
    pub marker: PhantomData<I>,
}

impl<P, Q, I> Then<P, Q, I> where P: Parser<I>, Q: Parser<I, Fatal = P::Fatal> {
    /// An ordered join of `left` and `right`, with `left` consuming first.
    pub fn new(left: P, right: Q) -> (r: Self)
        ensures
            r.state == (ThenState::<P, Q, P::Output>::First { left, right }),
            left.wf() && right.wf() ==> r.wf(),
    {
        Then { state: ThenState::First { left, right }, marker: PhantomData }
    }
}

/// What an ordered join whose left child is still consuming returns, given
/// what that child returned; `right` is the held right child.
pub open spec fn then_first<P, Q, I>(
    right: Q,
    lr: Step<P, P::Output, P::Error, P::Fatal>,
    r: Step<Then<P, Q, I>, (P::Output, Q::Output), Chain<P::Error, Q::Error>, P::Fatal>,
) -> bool where P: Parser<I>, Q: Parser<I, Fatal = P::Fatal> {
    match lr {
        Ok(Transition::Done(a)) => r matches Ok(Transition::Parsing(t2, d)) && t2.state
            == (ThenState::<P, Q, P::Output>::Second { output: a, right }) && d is None,
        Ok(Transition::Parsing(p2, ld)) => r matches Ok(Transition::Parsing(t2, d)) && t2.state
            == (ThenState::<P, Q, P::Output>::First { left: p2, right })
            && d == chain_opt(ld, None::<Q::Error>),
        Err(StepFailure::Recoverable(lf)) => step_is_recov(
            r,
            Chain { left: Some(lf.errors), right: None },
        ),
        Err(StepFailure::Fatal(ff)) => step_is_fatal(r, ff.errors),
    }
}

/// What an ordered join whose left child already finished with `a`
/// returns, given what its right child returned.
pub open spec fn then_second<P, Q, I>(
    a: P::Output,
    rr: Step<Q, Q::Output, Q::Error, Q::Fatal>,
    r: Step<Then<P, Q, I>, (P::Output, Q::Output), Chain<P::Error, Q::Error>, P::Fatal>,
) -> bool where P: Parser<I>, Q: Parser<I, Fatal = P::Fatal> {
    match rr {
        Ok(Transition::Done(b)) => step_is_done(r, (a, b)),
        Ok(Transition::Parsing(q2, rd)) => r matches Ok(Transition::Parsing(t2, d)) && t2.state
            == (ThenState::<P, Q, P::Output>::Second { output: a, right: q2 })
            && d == chain_opt(None::<P::Error>, rd),
        Err(StepFailure::Recoverable(rf)) => step_is_recov(
            r,
            Chain { left: None, right: Some(rf.errors) },
        ),
        Err(StepFailure::Fatal(ff)) => step_is_fatal(r, ff.errors),
    }
}

impl<P, Q, I> Parser<I> for Then<P, Q, I> where P: Parser<I>, Q: Parser<I, Fatal = P::Fatal> {
    type Output = (P::Output, Q::Output);

    type Error = Chain<P::Error, Q::Error>;

    type Fatal = P::Fatal;

    open spec fn wf(self) -> bool {
        match self.state {
            ThenState::First { left, right } => left.wf() && right.wf(),
            ThenState::Second { output, right } => right.wf(),
        }
    }

    open spec fn transits(
        self,
        input: I,
        r: Step<Self, Self::Output, Self::Error, Self::Fatal>,
    ) -> bool {
        match self.state {
            ThenState::First { left, right } => exists|
                lr: Step<P, P::Output, P::Error, P::Fatal>,
            |
                #[trigger] left.transits(input, lr) && then_first(right, lr, r),
            ThenState::Second { output, right } => exists|
                rr: Step<Q, Q::Output, Q::Error, Q::Fatal>,
            |
                #[trigger] right.transits(input, rr) && then_second::<P, Q, I>(output, rr, r),
        }
    }

    fn transit(self, input: I) -> (r: Step<Self, Self::Output, Self::Error, Self::Fatal>) {
        let ghost pre = self;
        match self.state {
            ThenState::First { left, right } => {
                let ghost right0 = right;
                let lr = left.transit(input);
                let ghost lr0 = lr;
                let r: Step<Self, Self::Output, Self::Error, Self::Fatal> = match lr {
                    Ok(Transition::Done(a)) => Ok(
                        Transition::Parsing(
                            Then {
                                state: ThenState::Second { output: a, right },
                                marker: PhantomData,
                            },
                            None,
                        ),
                    ),
                    Ok(Transition::Parsing(p2, ld)) => Ok(
                        Transition::Parsing(
                            Then {
                                state: ThenState::First { left: p2, right },
                                marker: PhantomData,
                            },
                            combine_diagnostics(ld, None),
                        ),
                    ),
                    Err(StepFailure::Recoverable(lf)) => Err(
                        StepFailure::Recoverable(
                            RecovFailure {
                                errors: Chain { left: Some(lf.errors), right: None },
                            },
                        ),
                    ),
                    Err(StepFailure::Fatal(ff)) => Err(StepFailure::Fatal(ff)),
                };
                proof {
                    assert(then_first(right0, lr0, r));
                    assert(pre.transits(input, r));
                }
                r
            },
            ThenState::Second { output, right } => {
                let ghost out0 = output;
                let rr = right.transit(input);
                let ghost rr0 = rr;
                let r: Step<Self, Self::Output, Self::Error, Self::Fatal> = match rr {
                    Ok(Transition::Done(b)) => Ok(Transition::Done((output, b))),
                    Ok(Transition::Parsing(q2, rd)) => Ok(
                        Transition::Parsing(
                            Then {
                                state: ThenState::Second { output, right: q2 },
                                marker: PhantomData,
                            },
                            combine_diagnostics(None, rd),
                        ),
                    ),
                    Err(StepFailure::Recoverable(rf)) => Err(
                        StepFailure::Recoverable(
                            RecovFailure {
                                errors: Chain { left: None, right: Some(rf.errors) },
                            },
                        ),
                    ),
                    Err(StepFailure::Fatal(ff)) => Err(StepFailure::Fatal(ff)),
                };
                proof {
                    assert(then_second::<P, Q, I>(out0, rr0, r));
                    assert(pre.transits(input, r));
                }
                r
            },
        }
    }
}

} // verus!
