//! Character-based matching: a view of input elements as characters, and a
//! terminal matcher for digits of a configurable numeric base.
use vstd::prelude::*;

use crate::error::DigitError;
use crate::parser::{NoFailure, Parser, RecovFailure, Step, StepFailure, Transition};

verus! {

/// An input element that can present itself as a character, if it holds
/// one.  The executable conversion agrees exactly with its specification.
pub trait AsChar {
    spec fn as_char_spec(&self) -> Option<char>;

    fn as_char(&self) -> (r: Option<char>)
        ensures
            r == self.as_char_spec(),
    ;
}

impl AsChar for char {
    open spec fn as_char_spec(&self) -> Option<char> {
        Some(*self)
    }

    fn as_char(&self) -> (r: Option<char>) {
        Some(*self)
    }
}

impl AsChar for u8 {
    open spec fn as_char_spec(&self) -> Option<char> {
        Some(*self as char)
    }

    fn as_char(&self) -> (r: Option<char>) {
        Some(*self as char)
    }
}

impl<'a, T: AsChar> AsChar for &'a T {
    open spec fn as_char_spec(&self) -> Option<char> {
        (**self).as_char_spec()
    }

    fn as_char(&self) -> (r: Option<char>) {
        (**self).as_char()
    }
}

impl<T: AsChar> AsChar for Option<T> {
    open spec fn as_char_spec(&self) -> Option<char> {
        match self {
            Some(inner) => inner.as_char_spec(),
            None => None,
        }
    }

    fn as_char(&self) -> (r: Option<char>) {
        match self {
            Some(inner) => inner.as_char(),
            None => None,
        }
    }
}

/// The numeric value of `c` as a digit in `base`: decimal digits count
/// from zero, letters of either case continue from ten, and anything else,
/// or a value not below the base, is no digit.
pub open spec fn digit_of(c: char, base: u32) -> Option<u32> {
    let u = c as u32;
    let v: int = if 48 <= u && u <= 57 {
        u - 48
    } else if 97 <= u && u <= 122 {
        u - 97 + 10
    } else if 65 <= u && u <= 90 {
        u - 65 + 10
    } else {
        36
    };
    if v < base {
        Some(v as u32)
    } else {
        None
    }
}

/// Compute the digit value of `c` in `base`.
pub fn digit_value(c: char, base: u32) -> (r: Option<u32>)
    requires
        2 <= base <= 36,
    ensures
        r == digit_of(c, base),
{
    let u = c as u32;
    let v: u32 = if 48 <= u && u <= 57 {
        u - 48
    } else if 97 <= u && u <= 122 {
        u - 97 + 10
    } else if 65 <= u && u <= 90 {
        u - 65 + 10
    } else {
        36
    };
    if v < base {
        Some(v)
    } else {
        None
    }
}

/// Accepts one digit of the given numeric base and outputs its value.
#[derive(Clone, Copy)]
pub struct Digit {
    pub base: u32,
}

impl Digit {
    /// A digit matcher for `base`, which must lie between two and
    /// thirty-six, the bases whose digits are decimal digits and letters.
    pub fn new(base: u32) -> (r: Self)
        requires
            2 <= base <= 36,
        ensures
            r == (Digit { base }),
    {
        Digit { base }
    }
}

impl<I: AsChar> Parser<I> for Digit {
    type Output = u32;

    type Error = DigitError<I>;

    type Fatal = NoFailure;

    open spec fn wf(self) -> bool {
        2 <= self.base <= 36
    }

    open spec fn transits(self, input: I, r: Step<Self, u32, DigitError<I>, NoFailure>) -> bool {
        r == (match input.as_char_spec() {
            Some(c) => match digit_of(c, self.base) {
                Some(v) => Ok::<_, StepFailure<DigitError<I>, NoFailure>>(
                    Transition::<Self, u32, DigitError<I>>::Done(v),
                ),
                None => Err(StepFailure::Recoverable(
                    RecovFailure { errors: DigitError { base: self.base, found: input } },
                )),
            },
            None => Err(StepFailure::Recoverable(
                RecovFailure { errors: DigitError { base: self.base, found: input } },
            )),
        })
    }

    fn transit(self, input: I) -> (r: Step<Self, u32, DigitError<I>, NoFailure>) {
        let value = match input.as_char() {
            Some(c) => digit_value(c, self.base),
            None => None,
        };
        match value {
            Some(v) => Ok(Transition::Done(v)),
            None => Err(StepFailure::Recoverable(
                RecovFailure { errors: DigitError { base: self.base, found: input } },
            )),
        }
    }
}

} // verus!
