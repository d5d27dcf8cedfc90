use honeycomb::character::{digit_value, AsChar, Digit};
use honeycomb::element::{Any, AnyOf, Equals, NoneOf, NotEquals};
use honeycomb::parser::{Parser, StepFailure, Transition};

#[test]
fn any_accepts_every_element() {
    match Any.transit('q') {
        Ok(Transition::Done(c)) => assert_eq!(c, 'q'),
        _ => panic!("any must finish with the input element"),
    }
}

#[test]
fn equals_accepts_the_expected_element() {
    match Equals('#').transit('#') {
        Ok(Transition::Done(c)) => assert_eq!(c, '#'),
        _ => panic!("equals must finish on its expected element"),
    }
}

#[test]
fn equals_rejects_any_other_element() {
    match Equals('#').transit('x') {
        Err(StepFailure::Recoverable(rf)) => {
            assert_eq!(rf.errors.expected, '#');
            assert_eq!(rf.errors.found, 'x');
        },
        _ => panic!("equals must fail recoverably on a mismatch"),
    }
}

#[test]
fn not_equals_rejects_the_excluded_element() {
    match NotEquals('a').transit('a') {
        Err(StepFailure::Recoverable(rf)) => {
            assert_eq!(rf.errors.unexpected, 'a');
            assert_eq!(rf.errors.found, 'a');
        },
        _ => panic!("not-equals must fail recoverably on the excluded element"),
    }
}

#[test]
fn not_equals_accepts_any_other_element() {
    match NotEquals('a').transit('b') {
        Ok(Transition::Done(c)) => assert_eq!(c, 'b'),
        _ => panic!("not-equals must finish on any other element"),
    }
}

#[test]
fn any_of_accepts_a_listed_element() {
    match AnyOf(vec!['a', 'b', 'c']).transit('b') {
        Ok(Transition::Done(c)) => assert_eq!(c, 'b'),
        _ => panic!("any-of must finish on a listed element"),
    }
}

#[test]
fn any_of_rejects_an_unlisted_element() {
    match AnyOf(vec!['a', 'b', 'c']).transit('d') {
        Err(StepFailure::Recoverable(rf)) => {
            assert_eq!(rf.errors.expecteds, vec!['a', 'b', 'c']);
            assert_eq!(rf.errors.found, 'd');
        },
        _ => panic!("any-of must fail recoverably on an unlisted element"),
    }
}

#[test]
fn any_of_with_no_expected_values_rejects_everything() {
    match AnyOf(Vec::<char>::new()).transit('d') {
        Err(StepFailure::Recoverable(rf)) => assert_eq!(rf.errors.found, 'd'),
        _ => panic!("an empty any-of must fail on every element"),
    }
}

#[test]
fn none_of_rejects_a_listed_element() {
    match NoneOf(vec!['x', 'y']).transit('y') {
        Err(StepFailure::Recoverable(rf)) => {
            assert_eq!(rf.errors.unexpecteds, vec!['x', 'y']);
            assert_eq!(rf.errors.found, 'y');
        },
        _ => panic!("none-of must fail recoverably on a listed element"),
    }
}

#[test]
fn none_of_accepts_an_unlisted_element() {
    match NoneOf(vec!['x', 'y']).transit('z') {
        Ok(Transition::Done(c)) => assert_eq!(c, 'z'),
        _ => panic!("none-of must finish on an unlisted element"),
    }
}

#[test]
fn digit_reads_a_hexadecimal_digit() {
    match Digit::new(16).transit('F') {
        Ok(Transition::Done(v)) => assert_eq!(v, 15),
        _ => panic!("a hexadecimal digit matcher must read 'F'"),
    }
}

#[test]
fn digit_rejects_a_value_not_below_the_base() {
    match Digit::new(10).transit('a') {
        Err(StepFailure::Recoverable(rf)) => {
            assert_eq!(rf.errors.base, 10);
            assert_eq!(rf.errors.found, 'a');
        },
        _ => panic!("a decimal digit matcher must reject 'a'"),
    }
}

#[test]
fn digit_reads_bytes_through_their_character_view() {
    match Digit::new(10).transit(b'7') {
        Ok(Transition::Done(v)) => assert_eq!(v, 7),
        _ => panic!("a digit matcher must read a byte as its character"),
    }
}

#[test]
fn digit_rejects_an_absent_optional_element() {
    match Digit::new(10).transit(None::<char>) {
        Err(StepFailure::Recoverable(rf)) => assert_eq!(rf.errors.base, 10),
        _ => panic!("a digit matcher must reject an absent element"),
    }
}

#[test]
fn digit_reads_a_present_optional_element() {
    match Digit::new(10).transit(Some('5')) {
        Ok(Transition::Done(v)) => assert_eq!(v, 5),
        _ => panic!("a digit matcher must read a present element"),
    }
}

#[test]
fn digit_values_cover_letters_of_either_case() {
    assert_eq!(digit_value('F', 16), Some(15));
    assert_eq!(digit_value('f', 16), Some(15));
    assert_eq!(digit_value('z', 36), Some(35));
    assert_eq!(digit_value('Z', 36), Some(35));
    assert_eq!(digit_value('9', 10), Some(9));
    assert_eq!(digit_value('5', 2), None);
    assert_eq!(digit_value('1', 2), Some(1));
    assert_eq!(digit_value('#', 36), None);
}

#[test]
fn character_views_of_the_element_types() {
    assert_eq!('x'.as_char(), Some('x'));
    assert_eq!(b'A'.as_char(), Some('A'));
    assert_eq!(Some('q').as_char(), Some('q'));
    assert_eq!(None::<char>.as_char(), None);
    assert_eq!((&'y').as_char(), Some('y'));
}

#[test]
fn terminal_matchers_never_suspend() {
    assert!(!matches!(Any.transit('a'), Ok(Transition::Parsing(_, _))));
    assert!(!matches!(Equals('a').transit('b'), Ok(Transition::Parsing(_, _))));
    assert!(!matches!(NotEquals('a').transit('a'), Ok(Transition::Parsing(_, _))));
    assert!(!matches!(AnyOf(vec!['a']).transit('b'), Ok(Transition::Parsing(_, _))));
    assert!(!matches!(NoneOf(vec!['a']).transit('a'), Ok(Transition::Parsing(_, _))));
    assert!(!matches!(Digit::new(8).transit('9'), Ok(Transition::Parsing(_, _))));
}
