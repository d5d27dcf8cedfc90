use honeycomb::element::Equals;
use honeycomb::error::{
    AnyOfError, Chain, Diagnostic, DigitError, EqualsError, ExpectedEndOfInput, GeneralError,
    NoneOfError, NotEqualsError, UnexpectedEndOfInput,
};
use honeycomb::map::MapErrors;
use honeycomb::parser::{Parser, StepFailure};

#[test]
fn an_equality_mismatch_names_both_elements() {
    let e = EqualsError { expected: '#', found: 'x' };
    assert_eq!(e.message(), "expected '#', found 'x'");
}

#[test]
fn an_exclusion_violation_names_the_excluded_element() {
    let e = NotEqualsError { unexpected: 'a', found: 'a' };
    assert_eq!(e.message(), "'a' not allowed, found 'a'");
}

#[test]
fn a_membership_miss_lists_the_expected_elements() {
    let e = AnyOfError { expecteds: vec!['a', 'b', 'c'], found: 'd' };
    assert_eq!(e.message(), "expected 'a', 'b' or 'c', found 'd'");
}

#[test]
fn a_membership_miss_with_two_expected_elements_uses_no_comma() {
    let e = AnyOfError { expecteds: vec!['a', 'b'], found: 'd' };
    assert_eq!(e.message(), "expected 'a' or 'b', found 'd'");
}

#[test]
fn a_membership_miss_with_one_expected_element_lists_it_alone() {
    let e = AnyOfError { expecteds: vec!['a'], found: 'd' };
    assert_eq!(e.message(), "expected 'a', found 'd'");
}

#[test]
fn an_empty_expected_list_renders_as_nothing() {
    let e = AnyOfError { expecteds: Vec::new(), found: 'd' };
    assert_eq!(e.message(), "expected nothing, found 'd'");
}

#[test]
fn a_set_exclusion_violation_lists_the_excluded_elements() {
    let e = NoneOfError { unexpecteds: vec!['x', 'y'], found: 'y' };
    assert_eq!(e.message(), "'x' or 'y' not allowed, found 'y'");
}

#[test]
fn a_digit_mismatch_names_the_base() {
    let e = DigitError { base: 16, found: 'g' };
    assert_eq!(e.message(), "expected digit in base 16, found 'g'");
}

#[test]
fn a_premature_end_has_a_fixed_rendering() {
    assert_eq!(UnexpectedEndOfInput.message(), "unexpected end of input");
}

#[test]
fn trailing_input_names_the_produced_output() {
    let e = ExpectedEndOfInput { found: 'a' };
    assert_eq!(e.message(), "expected end of input, found 'a'");
}

#[test]
fn the_unifying_diagnostic_renders_as_its_shape() {
    let e = GeneralError::Equals(EqualsError { expected: '#', found: 'x' });
    assert_eq!(e.message(), "expected '#', found 'x'");
    let d: GeneralError<char> = GeneralError::Digit(DigitError { base: 8, found: '9' });
    assert_eq!(d.message(), "expected digit in base 8, found '9'");
}

#[test]
fn the_unifying_diagnostic_converts_from_each_shape() {
    let e: GeneralError<char> = EqualsError { expected: 'a', found: 'b' }.into();
    assert!(matches!(e, GeneralError::Equals(_)));
    let n: GeneralError<char> = NotEqualsError { unexpected: 'a', found: 'a' }.into();
    assert!(matches!(n, GeneralError::NotEquals(_)));
    let a: GeneralError<char> = AnyOfError { expecteds: vec!['a'], found: 'b' }.into();
    assert!(matches!(a, GeneralError::AnyOf(_)));
    let o: GeneralError<char> = NoneOfError { unexpecteds: vec!['a'], found: 'a' }.into();
    assert!(matches!(o, GeneralError::NoneOf(_)));
    let d: GeneralError<char> = DigitError { base: 10, found: 'x' }.into();
    assert!(matches!(d, GeneralError::Digit(_)));
    let u: GeneralError<char> = UnexpectedEndOfInput.into();
    assert!(matches!(u, GeneralError::UnexpectedEnd(_)));
    let x: GeneralError<char> = ExpectedEndOfInput { found: 'q' }.into();
    assert!(matches!(x, GeneralError::ExpectedEnd(_)));
}

#[test]
fn chain_constructors_fill_the_expected_sides() {
    let both: Chain<u8, u16> = Chain::new(1, 2);
    assert_eq!(both.left, Some(1));
    assert_eq!(both.right, Some(2));
    let l: Chain<u8, u16> = Chain::from_left(1);
    assert_eq!(l.left, Some(1));
    assert_eq!(l.right, None);
    let r: Chain<u8, u16> = Chain::from_right(2);
    assert_eq!(r.left, None);
    assert_eq!(r.right, Some(2));
}

#[test]
fn a_chained_diagnostic_renders_both_sides() {
    let chain = Chain::new(
        EqualsError { expected: 'a', found: 'q' },
        DigitError { base: 10, found: 'q' },
    );
    assert_eq!(
        chain.message(),
        "expected 'a', found 'q' or expected digit in base 10, found 'q'"
    );
    let only_left: Chain<EqualsError<char>, DigitError<char>> =
        Chain::from_left(EqualsError { expected: 'a', found: 'q' });
    assert_eq!(only_left.message(), "expected 'a', found 'q'");
}

#[test]
fn an_identity_diagnostic_transform_reproduces_the_rendered_text() {
    let bare = match Equals('x').transit('a') {
        Err(StepFailure::Recoverable(rf)) => rf.errors,
        _ => panic!("the matcher must fail on a mismatch"),
    };
    let reference = bare.message();

    let lifted = MapErrors::new(Equals('x'), |e| GeneralError::from(e));
    let round_tripped = MapErrors::new(lifted, |e: GeneralError<char>| e);
    match round_tripped.transit('a') {
        Err(StepFailure::Recoverable(rf)) => assert_eq!(rf.errors.message(), reference),
        _ => panic!("the wrapped matcher must fail exactly like the bare one"),
    }
}
