//! What a trim strips: a predicate over one character, or a literal string.
use vstd::prelude::*;
use crate::scan::{leading_cut, trailing_cut, ready_on};
use crate::strip::{strip_start_by, strip_end_by, strip_start_str, strip_end_str};

verus! {

/// Default whitespace, as `char::is_whitespace` decides it.
pub uninterp spec fn white_space(c: char) -> bool;

/// Relies on `char::is_whitespace`: whether the character has the Unicode White_Space
/// property. The answer depends on the character alone.
#[verifier::external_body]
pub(crate) fn is_whitespace(c: char) -> (r: bool)
    ensures
        r == white_space(c),
{
    c.is_whitespace()
}

/// Default whitespace, as a predicate.
pub open spec fn ws_pred() -> spec_fn(char) -> bool {
    |c: char| white_space(c)
}

/// Equality with `c`, as a predicate.
pub open spec fn char_pred(c: char) -> spec_fn(char) -> bool {
    |x: char| x == c
}

/// A test on one character. `ready` is what a call needs, `gives` relates a character to
/// a possible answer.
pub trait CharPredicate {
    spec fn ready(&self, c: char) -> bool;

    spec fn gives(&self, c: char, r: bool) -> bool;

    fn test(&self, c: char) -> (r: bool)
        requires
            self.ready(c),
        ensures
            self.gives(c, r),
    ;
}

/// A single character matches itself.
impl CharPredicate for char {
    open spec fn ready(&self, c: char) -> bool {
        true
    }

    open spec fn gives(&self, c: char, r: bool) -> bool {
        r == (c == *self)
    }

    fn test(&self, c: char) -> (r: bool) {
        c == *self
    }
}

/// A closure is called on the character.
impl<F: Fn(char) -> bool> CharPredicate for F {
    open spec fn ready(&self, c: char) -> bool {
        call_requires(*self, (c,))
    }

    open spec fn gives(&self, c: char, r: bool) -> bool {
        call_ensures(*self, (c,), r)
    }

    fn test(&self, c: char) -> (r: bool) {
        (self)(c)
    }
}

/// Matches the characters that `char::is_whitespace` accepts.
pub struct Whitespace;

impl CharPredicate for Whitespace {
    open spec fn ready(&self, c: char) -> bool {
        true
    }

    open spec fn gives(&self, c: char, r: bool) -> bool {
        r == white_space(c)
    }

    fn test(&self, c: char) -> (r: bool) {
        is_whitespace(c)
    }
}

/// The closed set of patterns, as a trim sees them.
pub enum ConcretePattern<'a, F> {
    Func(&'a F),
    Str(&'a str),
    Char(char),
}

impl<'a, F: CharPredicate> ConcretePattern<'a, F> {
    /// The pattern may be tested on every character of `s`.
    pub open spec fn ready_on(&self, s: Seq<char>) -> bool {
        match *self {
            ConcretePattern::Func(f) => ready_on(f, s),
            _ => true,
        }
    }

    /// `r` is what is left of `s` once the pattern is stripped from its start, repeatedly.
    /// A predicate is held to the answers it gave: the stripped characters were accepted,
    /// and the first character kept (if any) was rejected.
    pub open spec fn strips_start_to(&self, s: Seq<char>, r: Seq<char>) -> bool {
        match *self {
            ConcretePattern::Func(f) => exists|k: int| leading_cut(f, s, k) && r == #[trigger] s.skip(k),
            ConcretePattern::Str(p) => r == strip_start_str(s, p@),
            ConcretePattern::Char(c) => r == strip_start_by(s, char_pred(c)),
        }
    }

    /// `r` is what is left of `s` once the pattern is stripped from its end, repeatedly.
    pub open spec fn strips_end_to(&self, s: Seq<char>, r: Seq<char>) -> bool {
        match *self {
            ConcretePattern::Func(f) => exists|e: int| trailing_cut(f, s, e) && r == #[trigger] s.take(e),
            ConcretePattern::Str(p) => r == strip_end_str(s, p@),
            ConcretePattern::Char(c) => r == strip_end_by(s, char_pred(c)),
        }
    }
}

/// A value that can describe what to strip.
pub trait Pattern {
    type Pred: CharPredicate;

    spec fn view_pattern(&self) -> ConcretePattern<'_, Self::Pred>;

    fn as_pattern_enum(&self) -> (r: ConcretePattern<'_, Self::Pred>)
        ensures
            r == self.view_pattern(),
    ;
}

impl Pattern for char {
    type Pred = char;

    open spec fn view_pattern(&self) -> ConcretePattern<'_, char> {
        ConcretePattern::Char(*self)
    }

    fn as_pattern_enum(&self) -> (r: ConcretePattern<'_, char>) {
        ConcretePattern::Char(*self)
    }
}

impl<'b> Pattern for &'b str {
    type Pred = char;

    open spec fn view_pattern(&self) -> ConcretePattern<'_, char> {
        ConcretePattern::Str(*self)
    }

    fn as_pattern_enum(&self) -> (r: ConcretePattern<'_, char>) {
        ConcretePattern::Str(*self)
    }
}

impl Pattern for Whitespace {
    type Pred = Whitespace;

    open spec fn view_pattern(&self) -> ConcretePattern<'_, Whitespace> {
        ConcretePattern::Func(self)
    }

    fn as_pattern_enum(&self) -> (r: ConcretePattern<'_, Whitespace>) {
        ConcretePattern::Func(self)
    }
}

impl<F: Fn(char) -> bool> Pattern for F {
    type Pred = F;

    open spec fn view_pattern(&self) -> ConcretePattern<'_, F> {
        ConcretePattern::Func(self)
    }

    fn as_pattern_enum(&self) -> (r: ConcretePattern<'_, F>) {
        ConcretePattern::Func(self)
    }
}

} // verus!
