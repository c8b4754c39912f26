//! Source positions, and values that carry one.

use vstd::prelude::*;

verus! {

/// A region of the source text: the byte offsets it covers and the line and
/// column at which it was read.
#[derive(Debug, Hash, Default, Clone, Copy, PartialEq, Eq, PartialOrd, Ord, Structural)]
pub struct Span {
    pub start: usize,
    pub end: usize,
    pub line: usize,
    pub column: usize,
}

impl Span {
    #[must_use]
    pub fn new(start: usize, end: usize, line: usize, column: usize) -> (span: Self)
        ensures
            span == (Span { start, end, line, column }),
    {
        Self { start, end, line, column }
    }

    /// The span that begins where `self` begins and ends where `to` ends.
    pub open spec fn spec_between(&self, to: Span) -> Span {
        Span { start: self.start, end: to.end, line: self.line, column: self.column }
    }

    #[must_use]
    #[verifier::when_used_as_spec(spec_between)]
    pub fn between(&self, to: Self) -> (span: Self)
        ensures
            span == self.spec_between(to),
    {
        Self { start: self.start, end: to.end, line: self.line, column: self.column }
    }

    pub fn wrap<A>(self, value: A) -> (wrapped: Positioned<A>)
        ensures
            wrapped == (Positioned { value, span: self }),
    {
        Positioned { value, span: self }
    }
}

/// A floating-point number as it is written in a program: its digits, the
/// last `scale` of them behind the point. Nothing of what was written is lost.
#[derive(Debug, PartialEq, Eq)]
pub struct Decimal {
    pub negative: bool,
    pub digits: String,
    pub scale: usize,
}

/// A written number as a mathematical value.
pub ghost struct DecimalView {
    pub negative: bool,
    pub digits: Seq<char>,
    pub scale: usize,
}

impl View for Decimal {
    type V = DecimalView;

    open spec fn view(&self) -> DecimalView {
        DecimalView { negative: self.negative, digits: self.digits@, scale: self.scale }
    }
}

impl Clone for Decimal {
    fn clone(&self) -> (copy: Self)
        ensures
            copy@ == self@,
    {
        Decimal { negative: self.negative, digits: self.digits.clone(), scale: self.scale }
    }
}

impl Decimal {
    /// Whether two numbers are written with the same sign and digits.
    pub fn same(&self, other: &Decimal) -> (equal: bool)
        ensures
            equal == (self@ == other@),
    {
        let equal = self.negative == other.negative && self.digits == other.digits && self.scale
            == other.scale;
        proof {
            if equal {
                assert(self.digits@ =~= other.digits@);
            }
        }
        equal
    }
}

/// A floating-point number as the machine carries it. Nothing here computes
/// with one: the machine hands the operands to the host and takes the result
/// back. A literal is kept as it was written: the string at `digits` on the
/// heap holds its digits, the last `scale` of them behind the point. A result
/// of the host is kept as its bit pattern.
#[derive(Debug, Clone, Copy, PartialEq, Eq, Structural)]
pub enum Float {
    Literal { negative: bool, digits: usize, scale: usize },
    Bits(u32),
}

/// A value together with the place in the source it came from.
#[derive(Debug, Hash, Default, Clone, Copy, PartialEq, Eq, PartialOrd, Ord)]
pub struct Positioned<T> {
    pub value: T,
    pub span: Span,
}

impl<T> Positioned<T> {
    pub fn new(value: T, span: Span) -> (wrapped: Self)
        ensures
            wrapped == (Positioned { value, span }),
    {
        Self { value, span }
    }

    /// From the start of `self` to the end of `value`.
    pub fn between<U>(&self, value: &Positioned<U>) -> (span: Span)
        ensures
            span == self.span.spec_between(value.span),
    {
        self.span.between(value.span)
    }

    /// Another value at the position of `self`.
    pub fn wrap<U>(&self, value: U) -> (wrapped: Positioned<U>)
        ensures
            wrapped == (Positioned { value, span: self.span }),
    {
        self.span.wrap(value)
    }

    /// Applies `f` to the value and keeps the position.
    pub fn map<U, F: FnOnce(T) -> U>(self, f: F) -> (mapped: Positioned<U>)
        requires
            f.requires((self.value,)),
        ensures
            f.ensures((self.value,), mapped.value),
            mapped.span == self.span,
    {
        let Positioned { value, span } = self;
        span.wrap(f(value))
    }

    pub fn unpack(self) -> (parts: (Span, T))
        ensures
            parts == (self.span, self.value),
    {
        (self.span, self.value)
    }
}

} // verus!
