use honeycomb::element::{Any, Equals};
use honeycomb::error::GeneralError;
use honeycomb::map::{MapErrors, MapFatal, MapInput, MapOutput, MapResult};
use honeycomb::parser::{NoFailure, Parser, StepFailure, Transition};

#[test]
fn map_output_rewrites_only_the_final_output() {
    let p = MapOutput::new(Equals('7'), |c: char| c as u32);
    match p.transit('7') {
        Ok(Transition::Done(v)) => assert_eq!(v, 55),
        _ => panic!("the wrapper must finish when the wrapped parser does"),
    }
}

#[test]
fn map_output_passes_a_failure_through_unchanged() {
    let p = MapOutput::new(Equals('7'), |c: char| c as u32);
    match p.transit('8') {
        Err(StepFailure::Recoverable(rf)) => {
            assert_eq!(rf.errors.expected, '7');
            assert_eq!(rf.errors.found, '8');
        },
        _ => panic!("the wrapper must fail exactly when the wrapped parser does"),
    }
}

#[test]
fn map_input_converts_each_incoming_element() {
    let p = MapInput::new(Equals('a'), |b: u8| b as char);
    match p.transit(b'a') {
        Ok(Transition::Done(c)) => assert_eq!(c, 'a'),
        _ => panic!("the wrapper must hand the converted element to the wrapped parser"),
    }
}

#[test]
fn map_errors_rewrites_a_terminal_failure() {
    let p = MapErrors::new(Equals('x'), |e| GeneralError::from(e));
    match p.transit('y') {
        Err(StepFailure::Recoverable(rf)) => match rf.errors {
            GeneralError::Equals(e) => {
                assert_eq!(e.expected, 'x');
                assert_eq!(e.found, 'y');
            },
            _ => panic!("the transformed diagnostic must keep its shape"),
        },
        _ => panic!("the wrapper must fail exactly when the wrapped parser does"),
    }
}

#[test]
fn map_fatal_rewrites_only_a_fatal_abort() {
    let validating = MapResult::new(Any, |r: Result<char, NoFailure>| match r {
        Ok('z') => Err(1u8),
        Ok(c) => Ok(c),
        Err(_) => Err(0u8),
    });
    let p = MapFatal::new(validating, |n: u8| n as u32 + 100);
    match p.transit('z') {
        Err(StepFailure::Fatal(ff)) => assert_eq!(ff.errors, 101),
        _ => panic!("the wrapper must transform the fatal abort"),
    }
}

#[test]
fn map_result_turns_a_rejected_output_into_a_fatal_abort() {
    let p = MapResult::new(Any, |r: Result<char, NoFailure>| match r {
        Ok('z') => Err(9u8),
        Ok(c) => Ok(c),
        Err(_) => Err(0u8),
    });
    match p.transit('z') {
        Err(StepFailure::Fatal(ff)) => assert_eq!(ff.errors, 9),
        _ => panic!("a rejected final output must become a fatal abort"),
    }
}

#[test]
fn map_result_keeps_an_accepted_output() {
    let p = MapResult::new(Any, |r: Result<char, NoFailure>| match r {
        Ok('z') => Err(9u8),
        Ok(c) => Ok(c),
        Err(_) => Err(0u8),
    });
    match p.transit('q') {
        Ok(Transition::Done(c)) => assert_eq!(c, 'q'),
        _ => panic!("an accepted final output must pass through"),
    }
}

#[test]
fn transition_map_output_rewrites_a_finished_transition() {
    let t: Transition<Equals<char>, u32, u8> = Transition::Done(3);
    match t.map_output(|v: u32| v + 1) {
        Transition::Done(v) => assert_eq!(v, 4),
        _ => panic!("a finished transition must stay finished"),
    }
}

#[test]
fn transition_map_output_keeps_a_suspension_untouched() {
    let t: Transition<Equals<char>, u32, u8> = Transition::Parsing(Equals('a'), Some(5));
    match t.map_output(|v: u32| v + 1) {
        Transition::Parsing(p, d) => {
            assert_eq!(p.0, 'a');
            assert_eq!(d, Some(5));
        },
        _ => panic!("a suspension must stay a suspension"),
    }
}

#[test]
fn transition_map_errors_rewrites_the_riding_diagnostic() {
    let t: Transition<Equals<char>, u32, u8> = Transition::Parsing(Equals('a'), Some(5));
    match t.map_errors(|e: u8| (e as u32) * 2) {
        Transition::Parsing(p, d) => {
            assert_eq!(p.0, 'a');
            assert_eq!(d, Some(10));
        },
        _ => panic!("a suspension must stay a suspension"),
    }
}

#[test]
fn transition_map_errors_keeps_an_absent_diagnostic_absent() {
    let t: Transition<Equals<char>, u32, u8> = Transition::Parsing(Equals('a'), None);
    match t.map_errors(|e: u8| (e as u32) * 2) {
        Transition::Parsing(_, d) => assert_eq!(d, None),
        _ => panic!("a suspension must stay a suspension"),
    }
}
