//! The diagnostic taxonomy: one concrete shape for each way a terminal
//! match can fail, a unifying diagnostic composing them all, and the
//! combined shape produced when two branches of an alternation both fail.
//!
//! Each shape of character diagnostics has a canonical human-readable
//! rendering, specified exactly as a sequence of characters and built by
//! verified code.
use vstd::prelude::*;
use vstd::string::StringExecFns;

verus! {

/// Relies on `String::push`: appends the given character to the end of
/// the string.
#[verifier::external_body]
fn push_char(s: &mut String, c: char)
    ensures
        final(s)@ == old(s)@.push(c),
{
    s.push(c)
}

/// A character between quotes, as it appears in a rendered diagnostic.
pub open spec fn quoted(c: char) -> Seq<char> {
    seq!['\'', c, '\'']
}

/// Append a quoted character to a rendered diagnostic.
fn push_quoted(s: &mut String, c: char)
    ensures
        final(s)@ == old(s)@ + quoted(c),
{
    push_char(s, '\'');
    push_char(s, c);
    push_char(s, '\'');
    proof {
        assert(old(s)@.push('\'').push(c).push('\'') =~= old(s)@ + quoted(c));
    }
}

/// The expected values of a list diagnostic up to its next-to-last entry,
/// quoted and joined by commas.
pub open spec fn comma_list(s: Seq<char>) -> Seq<char>
    decreases s.len(),
{
    if s.len() == 0 {
        Seq::empty()
    } else if s.len() == 1 {
        quoted(s[0])
    } else {
        comma_list(s.drop_last()) + ", "@ + quoted(s.last())
    }
}

/// A list of expected or excluded values as it appears in a rendered
/// diagnostic: quoted, joined by commas with "or" before the last entry,
/// and literally "nothing" when the list is empty.
pub open spec fn list_message(s: Seq<char>) -> Seq<char> {
    if s.len() == 0 {
        "nothing"@
    } else if s.len() == 1 {
        quoted(s[0])
    } else {
        comma_list(s.drop_last()) + " or "@ + quoted(s.last())
    }
}

/// Render a list of expected or excluded values.
fn render_list(items: &Vec<char>) -> (r: String)
    ensures
        r@ == list_message(items@),
{
    let n = items.len();
    if n == 0 {
        return String::from_str("nothing");
    }
    let mut out = String::new();
    let mut i: usize = 0;
    while i < n - 1
        invariant
            n == items@.len(),
            1 <= n,
            i <= n - 1,
            out@ == comma_list(items@.take(i as int)),
        decreases n - i,
    {
        if i > 0 {
            out.append(", ");
        }
        push_quoted(&mut out, items[i]);
        proof {
            assert(items@.take(i + 1).drop_last() =~= items@.take(i as int));
            assert(items@.take(i + 1).last() == items@[i as int]);
        }
        i += 1;
    }
    if n > 1 {
        out.append(" or ");
    }
    push_quoted(&mut out, items[n - 1]);
    proof {
        assert(items@.take(n - 1) =~= items@.drop_last());
        assert(out@ =~= list_message(items@));
    }
    out
}

/// The character for decimal digit `d`.
pub open spec fn decimal_digit(d: u32) -> char {
    ((48 + d) as u8) as char
}

/// A number rendered in decimal.
pub open spec fn decimal_message(n: u32) -> Seq<char>
    decreases n,
{
    if n < 10 {
        seq![decimal_digit(n as u32)]
    } else {
        decimal_message(n / 10).push(decimal_digit(n % 10))
    }
}

/// Append a number, rendered in decimal, to a diagnostic.
fn push_decimal(s: &mut String, n: u32)
    ensures
        final(s)@ == old(s)@ + decimal_message(n),
    decreases n,
{
    if n < 10 {
        push_char(s, (48 + n as u8) as char);
        proof {
            assert(old(s)@.push(decimal_digit(n)) =~= old(s)@ + decimal_message(n));
        }
    } else {
        push_decimal(s, n / 10);
        push_char(s, (48 + (n % 10) as u8) as char);
        proof {
            assert((old(s)@ + decimal_message(n / 10)).push(decimal_digit(n % 10)) =~= old(s)@
                + decimal_message(n));
        }
    }
}

/// A diagnostic with a canonical human-readable rendering.  The
/// executable rendering agrees exactly with its specification.
pub trait Diagnostic {
    spec fn message_spec(&self) -> Seq<char>;

    fn message(&self) -> (r: String)
        ensures
            r@ == self.message_spec(),
    ;
}

/// A value-equality mismatch: one particular element was expected.
pub struct EqualsError<I> {
    pub expected: I,
    pub found: I,
}

/// A value-exclusion violation: one particular element was not allowed.
pub struct NotEqualsError<I> {
    pub unexpected: I,
    pub found: I,
}

/// A set-membership miss: none of the expected elements was found.
pub struct AnyOfError<I> {
    pub expecteds: Vec<I>,
    pub found: I,
}

/// A set-exclusion violation: one of the excluded elements was found.
pub struct NoneOfError<I> {
    pub unexpecteds: Vec<I>,
    pub found: I,
}

/// A numeric mismatch: the element is not a digit in the given base.
pub struct DigitError<I> {
    pub base: u32,
    pub found: I,
}

/// The input ended although the parser still needed elements.
pub struct UnexpectedEndOfInput;

/// The parser finished although input elements remained; the output it
/// produced is attached.
pub struct ExpectedEndOfInput<A> {
    pub found: A,
}

/// The unifying diagnostic: every concrete shape as a tagged variant, so
/// that heterogeneous terminal matchers can share one recoverable
/// diagnostic type under alternation.
pub enum GeneralError<I> {
    Equals(EqualsError<I>),
    NotEquals(NotEqualsError<I>),
    AnyOf(AnyOfError<I>),
    NoneOf(NoneOfError<I>),
    Digit(DigitError<I>),
    UnexpectedEnd(UnexpectedEndOfInput),
    ExpectedEnd(ExpectedEndOfInput<I>),
}

impl<I> From<EqualsError<I>> for GeneralError<I> {
    fn from(e: EqualsError<I>) -> (r: GeneralError<I>) {
        GeneralError::Equals(e)
    }
}

impl<I> vstd::std_specs::convert::FromSpecImpl<EqualsError<I>> for GeneralError<I> {
    open spec fn obeys_from_spec() -> bool {
        true
    }

    open spec fn from_spec(e: EqualsError<I>) -> Self {
        GeneralError::Equals(e)
    }
}

impl<I> From<NotEqualsError<I>> for GeneralError<I> {
    fn from(e: NotEqualsError<I>) -> (r: GeneralError<I>) {
        GeneralError::NotEquals(e)
    }
}

impl<I> vstd::std_specs::convert::FromSpecImpl<NotEqualsError<I>> for GeneralError<I> {
    open spec fn obeys_from_spec() -> bool {
        true
    }

    open spec fn from_spec(e: NotEqualsError<I>) -> Self {
        GeneralError::NotEquals(e)
    }
}

impl<I> From<AnyOfError<I>> for GeneralError<I> {
    fn from(e: AnyOfError<I>) -> (r: GeneralError<I>) {
        GeneralError::AnyOf(e)
    }
}

impl<I> vstd::std_specs::convert::FromSpecImpl<AnyOfError<I>> for GeneralError<I> {
    open spec fn obeys_from_spec() -> bool {
        true
    }

    open spec fn from_spec(e: AnyOfError<I>) -> Self {
        GeneralError::AnyOf(e)
    }
}

impl<I> From<NoneOfError<I>> for GeneralError<I> {
    fn from(e: NoneOfError<I>) -> (r: GeneralError<I>) {
        GeneralError::NoneOf(e)
    }
}

impl<I> vstd::std_specs::convert::FromSpecImpl<NoneOfError<I>> for GeneralError<I> {
    open spec fn obeys_from_spec() -> bool {
        true
    }

    open spec fn from_spec(e: NoneOfError<I>) -> Self {
        GeneralError::NoneOf(e)
    }
}

impl<I> From<DigitError<I>> for GeneralError<I> {
    fn from(e: DigitError<I>) -> (r: GeneralError<I>) {
        GeneralError::Digit(e)
    }
}

impl<I> vstd::std_specs::convert::FromSpecImpl<DigitError<I>> for GeneralError<I> {
    open spec fn obeys_from_spec() -> bool {
        true
    }

    open spec fn from_spec(e: DigitError<I>) -> Self {
        GeneralError::Digit(e)
    }
}

impl<I> From<UnexpectedEndOfInput> for GeneralError<I> {
    fn from(e: UnexpectedEndOfInput) -> (r: GeneralError<I>) {
        GeneralError::UnexpectedEnd(e)
    }
}

impl<I> vstd::std_specs::convert::FromSpecImpl<UnexpectedEndOfInput> for GeneralError<I> {
    open spec fn obeys_from_spec() -> bool {
        true
    }

    open spec fn from_spec(e: UnexpectedEndOfInput) -> Self {
        GeneralError::UnexpectedEnd(e)
    }
}

impl<I> From<ExpectedEndOfInput<I>> for GeneralError<I> {
    fn from(e: ExpectedEndOfInput<I>) -> (r: GeneralError<I>) {
        GeneralError::ExpectedEnd(e)
    }
}

impl<I> vstd::std_specs::convert::FromSpecImpl<ExpectedEndOfInput<I>> for GeneralError<I> {
    open spec fn obeys_from_spec() -> bool {
        true
    }

    open spec fn from_spec(e: ExpectedEndOfInput<I>) -> Self {
        GeneralError::ExpectedEnd(e)
    }
}

/// Two diagnostics of an alternation, combined into one "expected this or
/// that" report.  At least one side is present: a failure of one branch
/// alone keeps the other side `None`.
pub struct Chain<E0, E1> {
    pub left: Option<E0>,
    pub right: Option<E1>,
}

impl<E0, E1> Chain<E0, E1> {
    /// Combine the diagnostics of both branches.
    pub fn new(left: E0, right: E1) -> (r: Self)
        ensures
            r == (Chain { left: Some(left), right: Some(right) }),
    {
        Chain { left: Some(left), right: Some(right) }
    }

    /// Only the left branch reported a diagnostic.
    pub fn from_left(left: E0) -> (r: Self)
        ensures
            r == (Chain { left: Some(left), right: None::<E1> }),
    {
        Chain { left: Some(left), right: None }
    }

    /// Only the right branch reported a diagnostic.
    pub fn from_right(right: E1) -> (r: Self)
        ensures
            r == (Chain { left: None::<E0>, right: Some(right) }),
    {
        Chain { left: None, right: Some(right) }
    }
}


impl Diagnostic for EqualsError<char> {
    open spec fn message_spec(&self) -> Seq<char> {
        "expected "@ + quoted(self.expected) + ", found "@ + quoted(self.found)
    }

    fn message(&self) -> (r: String) {
        let mut out = String::from_str("expected ");
        push_quoted(&mut out, self.expected);
        out.append(", found ");
        push_quoted(&mut out, self.found);
        out
    }
}

impl Diagnostic for NotEqualsError<char> {
    open spec fn message_spec(&self) -> Seq<char> {
        quoted(self.unexpected) + " not allowed, found "@ + quoted(self.found)
    }

    fn message(&self) -> (r: String) {
        let mut out = String::new();
        push_quoted(&mut out, self.unexpected);
        out.append(" not allowed, found ");
        push_quoted(&mut out, self.found);
        proof {
            assert(out@ =~= self.message_spec());
        }
        out
    }
}

impl Diagnostic for AnyOfError<char> {
    open spec fn message_spec(&self) -> Seq<char> {
        "expected "@ + list_message(self.expecteds@) + ", found "@ + quoted(self.found)
    }

    fn message(&self) -> (r: String) {
        let mut out = String::from_str("expected ");
        let list = render_list(&self.expecteds);
        out.append(list.as_str());
        out.append(", found ");
        push_quoted(&mut out, self.found);
        out
    }
}

impl Diagnostic for NoneOfError<char> {
    open spec fn message_spec(&self) -> Seq<char> {
        list_message(self.unexpecteds@) + " not allowed, found "@ + quoted(self.found)
    }

    fn message(&self) -> (r: String) {
        let mut out = render_list(&self.unexpecteds);
        out.append(" not allowed, found ");
        push_quoted(&mut out, self.found);
        out
    }
}

impl Diagnostic for DigitError<char> {
    open spec fn message_spec(&self) -> Seq<char> {
        "expected digit in base "@ + decimal_message(self.base) + ", found "@ + quoted(self.found)
    }

    fn message(&self) -> (r: String) {
        let mut out = String::from_str("expected digit in base ");
        push_decimal(&mut out, self.base);
        out.append(", found ");
        push_quoted(&mut out, self.found);
        out
    }
}

impl Diagnostic for UnexpectedEndOfInput {
    open spec fn message_spec(&self) -> Seq<char> {
        "unexpected end of input"@
    }

    fn message(&self) -> (r: String) {
        String::from_str("unexpected end of input")
    }
}

impl Diagnostic for ExpectedEndOfInput<char> {
    open spec fn message_spec(&self) -> Seq<char> {
        "expected end of input, found "@ + quoted(self.found)
    }

    fn message(&self) -> (r: String) {
        let mut out = String::from_str("expected end of input, found ");
        push_quoted(&mut out, self.found);
        out
    }
}

impl Diagnostic for GeneralError<char> {
    open spec fn message_spec(&self) -> Seq<char> {
        match self {
            GeneralError::Equals(e) => e.message_spec(),
            GeneralError::NotEquals(e) => e.message_spec(),
            GeneralError::AnyOf(e) => e.message_spec(),
            GeneralError::NoneOf(e) => e.message_spec(),
            GeneralError::Digit(e) => e.message_spec(),
            GeneralError::UnexpectedEnd(e) => e.message_spec(),
            GeneralError::ExpectedEnd(e) => e.message_spec(),
        }
    }

    fn message(&self) -> (r: String) {
        match self {
            GeneralError::Equals(e) => e.message(),
            GeneralError::NotEquals(e) => e.message(),
            GeneralError::AnyOf(e) => e.message(),
            GeneralError::NoneOf(e) => e.message(),
            GeneralError::Digit(e) => e.message(),
            GeneralError::UnexpectedEnd(e) => e.message(),
            GeneralError::ExpectedEnd(e) => e.message(),
        }
    }
}

impl<E0: Diagnostic, E1: Diagnostic> Diagnostic for Chain<E0, E1> {
    open spec fn message_spec(&self) -> Seq<char> {
        match (&self.left, &self.right) {
            (Some(l), Some(r)) => l.message_spec() + " or "@ + r.message_spec(),
            (Some(l), None) => l.message_spec(),
            (None, Some(r)) => r.message_spec(),
            (None, None) => Seq::empty(),
        }
    }

    fn message(&self) -> (r: String) {
        match (&self.left, &self.right) {
            (Some(l), Some(r)) => {
                let mut out = l.message();
                out.append(" or ");
                let rm = r.message();
                out.append(rm.as_str());
                out
            },
            (Some(l), None) => l.message(),
            (None, Some(r)) => r.message(),
            (None, None) => String::new(),
        }
    }
}

} // verus!
