use honeycomb::combinator::{And, AndState, Or, OrState, Then, ThenState};
use honeycomb::element::{Any, Equals};
use honeycomb::map::{MapFatal, MapOutput, MapResult};
use honeycomb::parser::{NoFailure, Parser, StepFailure, Transition};

#[test]
fn or_prefers_the_left_branch_when_both_finish() {
    let left = MapOutput::new(Any, |_c: char| 1u32);
    let right = MapOutput::new(Any, |_c: char| 2u32);
    let or = Or::new(left, right);
    match or.transit('z') {
        Ok(Transition::Done(v)) => assert_eq!(v, 1),
        _ => panic!("the alternation must finish with the left output"),
    }
}

#[test]
fn or_narrows_to_the_surviving_branch_and_remembers_the_diagnostic() {
    let left = Equals('x');
    let right = MapOutput::new(Then::new(Any, Any), |p: (char, char)| p.1);
    let or = Or::new(left, right);
    let or2 = match or.transit('a') {
        Ok(Transition::Parsing(next, _)) => next,
        _ => panic!("the alternation must survive through its right branch"),
    };
    match &or2.state {
        OrState::OnlyRight { discarded, .. } => {
            let kept = discarded.as_ref().expect("the left diagnostic must be remembered");
            assert_eq!(kept.expected, 'x');
            assert_eq!(kept.found, 'a');
        },
        _ => panic!("the alternation must have narrowed to the right branch"),
    }
    match or2.transit('b') {
        Ok(Transition::Done(c)) => assert_eq!(c, 'b'),
        _ => panic!("the narrowed alternation must behave as the right branch alone"),
    }
}

#[test]
fn or_fails_with_both_diagnostics_when_both_branches_fail() {
    let or = Or::new(Equals('x'), Equals('y'));
    match or.transit('a') {
        Err(StepFailure::Recoverable(rf)) => {
            let l = rf.errors.left.expect("the left diagnostic must be present");
            let r = rf.errors.right.expect("the right diagnostic must be present");
            assert_eq!(l.expected, 'x');
            assert_eq!(r.expected, 'y');
            assert_eq!(l.found, 'a');
            assert_eq!(r.found, 'a');
        },
        _ => panic!("the alternation must fail when both branches fail"),
    }
}

#[test]
fn or_propagates_a_fatal_abort_without_trying_the_other_branch() {
    let left = MapResult::new(Any, |r: Result<char, NoFailure>| match r {
        Ok('z') => Err(7u8),
        Ok(c) => Ok(c),
        Err(_) => Err(0u8),
    });
    let right = MapFatal::new(Any, |_n: NoFailure| 0u8);
    let or = Or::new(left, right);
    match or.transit('z') {
        Err(StepFailure::Fatal(ff)) => assert_eq!(ff.errors, 7),
        _ => panic!("a fatal abort of one branch must abort the whole alternation"),
    }
}

#[test]
fn then_feeds_the_left_child_first_and_the_right_child_afterwards() {
    let thn = Then::new(Then::new(Any, Any), Any);
    let after_one = match thn.transit('a') {
        Ok(Transition::Parsing(next, _)) => next,
        _ => panic!("the ordered join must suspend after one element"),
    };
    assert!(matches!(after_one.state, ThenState::First { .. }));
    let after_two = match after_one.transit('b') {
        Ok(Transition::Parsing(next, _)) => next,
        _ => panic!("the ordered join must suspend after two elements"),
    };
    match &after_two.state {
        ThenState::Second { output, .. } => assert_eq!(*output, ('a', 'b')),
        _ => panic!("the left child must have finished after two elements"),
    }
    match after_two.transit('c') {
        Ok(Transition::Done(pair)) => assert_eq!(pair, (('a', 'b'), 'c')),
        _ => panic!("the ordered join must finish on the third element"),
    }
}

#[test]
fn then_fails_when_its_active_child_fails() {
    let thn = Then::new(Equals('a'), Equals('b'));
    match thn.transit('q') {
        Err(StepFailure::Recoverable(rf)) => {
            let l = rf.errors.left.expect("the failure must come from the left child");
            assert_eq!(l.expected, 'a');
            assert!(rf.errors.right.is_none());
        },
        _ => panic!("the ordered join must fail when its left child fails"),
    }
}

#[test]
fn and_holds_a_finished_child_while_the_other_continues() {
    let and = And::new(Any, Then::new(Then::new(Any, Any), Any));
    let after_one = match and.transit('a') {
        Ok(Transition::Parsing(next, _)) => next,
        _ => panic!("the parallel join must suspend after one element"),
    };
    match &after_one.state {
        AndState::LeftDone { output, .. } => assert_eq!(*output, 'a'),
        _ => panic!("the left child must be finished and its output held"),
    }
    let after_two = match after_one.transit('b') {
        Ok(Transition::Parsing(next, _)) => next,
        _ => panic!("the parallel join must suspend after two elements"),
    };
    match &after_two.state {
        AndState::LeftDone { output, .. } => assert_eq!(*output, 'a'),
        _ => panic!("the held output must stay unchanged"),
    }
    match after_two.transit('c') {
        Ok(Transition::Done(pair)) => assert_eq!(pair, ('a', (('a', 'b'), 'c'))),
        _ => panic!("the parallel join must finish when the later child does"),
    }
}

#[test]
fn and_feeds_every_element_to_both_children() {
    let and = And::new(Then::new(Any, Any), Then::new(Any, Any));
    let after_one = match and.transit('a') {
        Ok(Transition::Parsing(next, _)) => next,
        _ => panic!("the parallel join must suspend after one element"),
    };
    match after_one.transit('b') {
        Ok(Transition::Done(pair)) => assert_eq!(pair, (('a', 'b'), ('a', 'b'))),
        _ => panic!("both children must see the same two elements"),
    }
}

#[test]
fn a_successor_keeps_making_progress_on_its_own() {
    let thn = Then::new(Equals('a'), Equals('b'));
    let successor = match thn.transit('a') {
        Ok(Transition::Parsing(next, _)) => next,
        _ => panic!("the join must suspend after its first element"),
    };
    match successor.transit('b') {
        Ok(Transition::Done(pair)) => assert_eq!(pair, ('a', 'b')),
        _ => panic!("only the successor continues the parse"),
    }
}

#[test]
fn boxed_parsers_step_like_their_contents() {
    let boxed = Box::new(Equals('k'));
    match boxed.transit('k') {
        Ok(Transition::Done(c)) => assert_eq!(c, 'k'),
        _ => panic!("a boxed parser must step like its contents"),
    }
}
