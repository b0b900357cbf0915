//! In-place trimming of `String` buffers: the trimmed text is moved to the front of the
//! buffer's own allocation instead of being copied into a new one.
use vstd::prelude::*;

pub mod in_place;
pub mod laws;
pub mod pattern;
pub mod scan;
pub mod strip;
pub mod utf8_len;

pub use pattern::{CharPredicate, ConcretePattern, Pattern, Whitespace};

use in_place::{cut_start_by, cut_end_by, cut_both_by, cut_start_str, cut_end_str};
use pattern::{ws_pred, char_pred};
use strip::{strip_start_by, strip_end_by, strip_both_by, lemma_leading_cut, lemma_trailing_cut};

verus! {

/// Trimming that works on the buffer itself and returns a view of what is left.
pub trait TrimInPlace: View<V = Seq<char>> {
    /// Strips default whitespace from both ends.
    fn trim_in_place(&mut self) -> (r: &str)
        ensures
            final(self)@ == strip_both_by(old(self)@, ws_pred()),
            r@ == final(self)@,
    ;

    /// Strips default whitespace from the start.
    fn trim_start_in_place(&mut self) -> (r: &str)
        ensures
            final(self)@ == strip_start_by(old(self)@, ws_pred()),
            r@ == final(self)@,
    ;

    /// Strips default whitespace from the end.
    fn trim_end_in_place(&mut self) -> (r: &str)
        ensures
            final(self)@ == strip_end_by(old(self)@, ws_pred()),
            r@ == final(self)@,
    ;

    /// Strips every copy of `pat` from both ends.
    fn trim_matches_in_place(&mut self, pat: char) -> (r: &str)
        ensures
            final(self)@ == strip_both_by(old(self)@, char_pred(pat)),
            r@ == final(self)@,
    ;

    /// Strips `pat` from the start, as many times as it matches.
    fn trim_start_matches_in_place<P: Pattern>(&mut self, pat: P) -> (r: &str)
        requires
            pat.view_pattern().ready_on(old(self)@),
        ensures
            pat.view_pattern().strips_start_to(old(self)@, final(self)@),
            r@ == final(self)@,
    ;

    /// Strips `pat` from the end, as many times as it matches.
    fn trim_end_matches_in_place<P: Pattern>(&mut self, pat: P) -> (r: &str)
        requires
            pat.view_pattern().ready_on(old(self)@),
        ensures
            pat.view_pattern().strips_end_to(old(self)@, final(self)@),
            r@ == final(self)@,
    ;
}

impl TrimInPlace for String {
    fn trim_in_place(&mut self) -> (r: &str) {
        cut_both_by(self, &Whitespace, Ghost(ws_pred()));
        self.as_str()
    }

    fn trim_start_in_place(&mut self) -> (r: &str) {
        let ghost s0 = self@;
        let Ghost(k) = cut_start_by(self, &Whitespace);
        proof {
            lemma_leading_cut(s0, ws_pred(), k);
        }
        self.as_str()
    }

    fn trim_end_in_place(&mut self) -> (r: &str) {
        let ghost s0 = self@;
        let Ghost(e) = cut_end_by(self, &Whitespace);
        proof {
            lemma_trailing_cut(s0, ws_pred(), e);
        }
        self.as_str()
    }

    fn trim_matches_in_place(&mut self, pat: char) -> (r: &str) {
        cut_both_by(self, &pat, Ghost(char_pred(pat)));
        self.as_str()
    }

    fn trim_start_matches_in_place<P: Pattern>(&mut self, pat: P) -> (r: &str) {
        let ghost s0 = self@;
        match pat.as_pattern_enum() {
            ConcretePattern::Func(f) => {
                cut_start_by(self, f);
            },
            ConcretePattern::Str(p) => {
                cut_start_str(self, p);
            },
            ConcretePattern::Char(c) => {
                let Ghost(k) = cut_start_by(self, &c);
                proof {
                    lemma_leading_cut(s0, char_pred(c), k);
                }
            },
        }
        self.as_str()
    }

    fn trim_end_matches_in_place<P: Pattern>(&mut self, pat: P) -> (r: &str) {
        let ghost s0 = self@;
        match pat.as_pattern_enum() {
            ConcretePattern::Func(f) => {
                cut_end_by(self, f);
            },
            ConcretePattern::Str(p) => {
                cut_end_str(self, p);
            },
            ConcretePattern::Char(c) => {
                let Ghost(e) = cut_end_by(self, &c);
                proof {
                    lemma_trailing_cut(s0, char_pred(c), e);
                }
            },
        }
        self.as_str()
    }
}

} // verus!
