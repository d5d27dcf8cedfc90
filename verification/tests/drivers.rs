use honeycomb::character::Digit;
use honeycomb::element::{Any, Equals};
use honeycomb::map::MapOutput;
use honeycomb::parser::Parser;
use honeycomb::stream::{parse_iter, parse_iter_complete, parse_iter_incomplete, StreamError};

/// One colour channel: two hexadecimal digits read as one byte value.
fn channel() -> impl Parser<char, Output = u32, Fatal = honeycomb::parser::NoFailure> {
    MapOutput::new(
        honeycomb::combinator::Then::new(Digit::new(16), Digit::new(16)),
        |(high, low): (u32, u32)| (high << 4) | low,
    )
}

#[test]
fn an_exhausted_source_before_completion_is_an_unexpected_end() {
    let thn = honeycomb::combinator::Then::new(Equals('a'), Equals('b'));
    match parse_iter(thn, vec!['a']) {
        Err(StreamError::UnexpectedEnd(_)) => {},
        _ => panic!("running out of elements before completion must be an unexpected end"),
    }
}

#[test]
fn an_empty_source_is_an_unexpected_end() {
    match parse_iter(Equals('a'), Vec::new()) {
        Err(StreamError::UnexpectedEnd(_)) => {},
        _ => panic!("an empty source must be an unexpected end"),
    }
}

#[test]
fn completion_with_elements_remaining_reports_the_produced_output() {
    match parse_iter(Equals('a'), vec!['a', 'b']) {
        Err(StreamError::ExpectedEnd(e)) => assert_eq!(e.found, 'a'),
        _ => panic!("trailing elements must be reported with the output attached"),
    }
}

#[test]
fn completion_on_the_last_element_succeeds() {
    let thn = honeycomb::combinator::Then::new(Equals('a'), Equals('b'));
    match parse_iter(thn, vec!['a', 'b']) {
        Ok(pair) => assert_eq!(pair, ('a', 'b')),
        _ => panic!("finishing on the last element must succeed"),
    }
}

#[test]
fn a_recoverable_parse_failure_stops_the_driver() {
    match parse_iter(Equals('a'), vec!['q']) {
        Err(StreamError::Failed(e)) => {
            assert_eq!(e.expected, 'a');
            assert_eq!(e.found, 'q');
        },
        _ => panic!("a failing parser must stop the driver with its diagnostic"),
    }
}

#[test]
fn three_elements_are_too_few_for_a_marker_and_two_channels() {
    let parser = honeycomb::combinator::Then::new(
        honeycomb::combinator::Then::new(Equals('#'), channel()),
        Digit::new(16),
    );
    match parse_iter(parser, vec!['#', '1', 'F']) {
        Err(StreamError::UnexpectedEnd(_)) => {},
        _ => panic!("three elements must leave the parser short of its fourth"),
    }
}

#[test]
fn four_elements_complete_the_marker_and_both_channels() {
    let parser = honeycomb::combinator::Then::new(
        honeycomb::combinator::Then::new(Equals('#'), channel()),
        Digit::new(16),
    );
    match parse_iter(parser, vec!['#', '1', 'F', 'A']) {
        Ok(((marker, first), second)) => {
            assert_eq!(marker, '#');
            assert_eq!(first, 0x1F);
            assert_eq!(second, 0xA);
        },
        _ => panic!("four elements must complete the parse"),
    }
}

#[test]
fn the_end_marker_lets_a_parser_finish_on_it() {
    let parser = honeycomb::combinator::Then::new(Equals(Some('a')), Equals(None::<char>));
    match parse_iter_complete(parser, vec!['a']) {
        Ok(pair) => assert_eq!(pair, (Some('a'), None)),
        _ => panic!("the absent marker must be fed once the elements run out"),
    }
}

#[test]
fn the_marker_driver_reports_trailing_elements() {
    match parse_iter_complete(Equals(Some('a')), vec!['a', 'b']) {
        Err(StreamError::ExpectedEnd(e)) => assert_eq!(e.found, Some('a')),
        _ => panic!("trailing elements must be reported with the output attached"),
    }
}

#[test]
fn the_marker_driver_reports_a_parser_that_outlives_the_marker() {
    let parser = honeycomb::combinator::Then::new(Equals(None::<char>), Any);
    match parse_iter_complete(parser, Vec::new()) {
        Err(StreamError::UnexpectedEnd(_)) => {},
        _ => panic!("a parser still suspended after the marker is an unexpected end"),
    }
}

#[test]
fn the_marker_driver_passes_a_failure_on_the_marker_through() {
    let parser = honeycomb::combinator::Then::new(Equals(Some('a')), Equals(Some('b')));
    match parse_iter_complete(parser, vec!['a']) {
        Err(StreamError::Failed(chain)) => {
            let right = chain.right.expect("the second matcher must have failed");
            assert_eq!(right.expected, Some('b'));
            assert_eq!(right.found, None);
        },
        _ => panic!("a parser that rejects the marker fails with its own diagnostic"),
    }
}

#[test]
fn the_partial_driver_returns_the_unconsumed_remainder() {
    match parse_iter_incomplete(Equals(Some('a')), vec!['a', 'b', 'c']) {
        Ok((remainder, out)) => {
            assert_eq!(remainder, vec!['b', 'c']);
            assert_eq!(out, Some('a'));
        },
        _ => panic!("the partial driver must return the rest of the source"),
    }
}

#[test]
fn the_partial_driver_accepts_an_exactly_consumed_source() {
    match parse_iter_incomplete(Any, vec!['q']) {
        Ok((remainder, out)) => {
            assert_eq!(remainder, Vec::<char>::new());
            assert_eq!(out, Some('q'));
        },
        _ => panic!("the partial driver must succeed with an empty remainder"),
    }
}

#[test]
fn the_partial_driver_reports_a_starved_parser() {
    let parser = honeycomb::combinator::Then::new(Equals(None::<char>), Any);
    match parse_iter_incomplete(parser, Vec::new()) {
        Err(StreamError::UnexpectedEnd(_)) => {},
        _ => panic!("a starved parser is an unexpected end even for the partial driver"),
    }
}
