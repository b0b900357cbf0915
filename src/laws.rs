//! Laws of trimming, stated over the contracts of the trim operations.
use vstd::prelude::*;
use crate::in_place::answers_as;
use crate::pattern::{CharPredicate, ConcretePattern, char_pred};
use crate::scan::{leading_cut, trailing_cut};
use crate::strip::{
    strip_start_by, strip_end_by, strip_both_by, strip_start_str, strip_end_str,
    lemma_leading_cut, lemma_trailing_cut, lemma_strip_start_by_head, lemma_strip_end_by_last,
};

verus! {

/// A predicate that answers as `q` strips from the start exactly what the reference
/// stripping by `q` strips.
pub proof fn lemma_predicate_start_is_reference<F: CharPredicate>(
    f: &F,
    q: spec_fn(char) -> bool,
    s: Seq<char>,
    r: Seq<char>,
)
    requires
        answers_as(f, q),
        ConcretePattern::Func(f).strips_start_to(s, r),
    ensures
        r == strip_start_by(s, q),
{
    let k = choose|k: int| leading_cut(f, s, k) && r == #[trigger] s.skip(k);
    assert forall|i: int| 0 <= i < k implies q(#[trigger] s[i]) by {
        assert(f.gives(s[i], true));
    }
    if k < s.len() {
        assert(f.gives(s[k], false));
    }
    lemma_leading_cut(s, q, k);
}

/// A predicate that answers as `q` strips from the end exactly what the reference
/// stripping by `q` strips.
pub proof fn lemma_predicate_end_is_reference<F: CharPredicate>(
    f: &F,
    q: spec_fn(char) -> bool,
    s: Seq<char>,
    r: Seq<char>,
)
    requires
        answers_as(f, q),
        ConcretePattern::Func(f).strips_end_to(s, r),
    ensures
        r == strip_end_by(s, q),
{
    let e = choose|e: int| trailing_cut(f, s, e) && r == #[trigger] s.take(e);
    assert forall|i: int| e <= i < s.len() implies q(#[trigger] s[i]) by {
        assert(f.gives(s[i], true));
    }
    if e > 0 {
        assert(f.gives(s[e - 1], false));
    }
    lemma_trailing_cut(s, q, e);
}

/// Stripping leading characters twice strips nothing more the second time.
pub proof fn lemma_strip_start_by_idempotent(s: Seq<char>, p: spec_fn(char) -> bool)
    ensures
        strip_start_by(strip_start_by(s, p), p) == strip_start_by(s, p),
{
    lemma_strip_start_by_head(s, p);
}

/// Stripping trailing characters twice strips nothing more the second time.
pub proof fn lemma_strip_end_by_idempotent(s: Seq<char>, p: spec_fn(char) -> bool)
    ensures
        strip_end_by(strip_end_by(s, p), p) == strip_end_by(s, p),
{
    lemma_strip_end_by_last(s, p);
}

/// Stripping both ends twice strips nothing more the second time.
pub proof fn lemma_strip_both_by_idempotent(s: Seq<char>, p: spec_fn(char) -> bool)
    ensures
        strip_both_by(strip_both_by(s, p), p) == strip_both_by(s, p),
{
    let t = strip_start_by(s, p);
    let u = strip_end_by(t, p);
    lemma_strip_start_by_head(s, p);
    lemma_strip_end_by_last(t, p);
    let e = choose|e: int| 0 <= e <= t.len() && u == #[trigger] t.take(e);
    if u.len() > 0 {
        assert(u[0] == t[0]);
        assert(strip_start_by(u, p) == u);
    } else {
        assert(strip_start_by(u, p) == u);
    }
}

/// What a leading strip of `pat` leaves does not start with `pat`.
proof fn lemma_strip_start_str_rest(s: Seq<char>, pat: Seq<char>)
    ensures
        strip_start_str(strip_start_str(s, pat), pat) == strip_start_str(s, pat),
    decreases s.len(),
{
    if pat.len() > 0 && pat.len() <= s.len() && s.take(pat.len() as int) == pat {
        lemma_strip_start_str_rest(s.skip(pat.len() as int), pat);
    }
}

/// What a trailing strip of `pat` leaves does not end with `pat`.
proof fn lemma_strip_end_str_rest(s: Seq<char>, pat: Seq<char>)
    ensures
        strip_end_str(strip_end_str(s, pat), pat) == strip_end_str(s, pat),
    decreases s.len(),
{
    if pat.len() > 0 && pat.len() <= s.len() && s.skip(s.len() - pat.len()) == pat {
        lemma_strip_end_str_rest(s.take(s.len() - pat.len()), pat);
    }
}

/// Trimming the start twice with the same pattern leaves what trimming once left, where a
/// predicate pattern answers as some `q` (the same character always gets the same answer).
pub proof fn lemma_trim_start_twice<'a, F: CharPredicate>(
    pat: ConcretePattern<'a, F>,
    q: spec_fn(char) -> bool,
    s: Seq<char>,
    once: Seq<char>,
    twice: Seq<char>,
)
    requires
        pat matches ConcretePattern::Func(f) ==> answers_as(f, q),
        pat.strips_start_to(s, once),
        pat.strips_start_to(once, twice),
    ensures
        twice == once,
{
    match pat {
        ConcretePattern::Func(f) => {
            lemma_predicate_start_is_reference(f, q, s, once);
            lemma_predicate_start_is_reference(f, q, once, twice);
            lemma_strip_start_by_idempotent(s, q);
        },
        ConcretePattern::Str(p) => {
            lemma_strip_start_str_rest(s, p@);
        },
        ConcretePattern::Char(c) => {
            lemma_strip_start_by_idempotent(s, char_pred(c));
        },
    }
}

/// Trimming the end twice with the same pattern leaves what trimming once left, where a
/// predicate pattern answers as some `q`.
pub proof fn lemma_trim_end_twice<'a, F: CharPredicate>(
    pat: ConcretePattern<'a, F>,
    q: spec_fn(char) -> bool,
    s: Seq<char>,
    once: Seq<char>,
    twice: Seq<char>,
)
    requires
        pat matches ConcretePattern::Func(f) ==> answers_as(f, q),
        pat.strips_end_to(s, once),
        pat.strips_end_to(once, twice),
    ensures
        twice == once,
{
    match pat {
        ConcretePattern::Func(f) => {
            lemma_predicate_end_is_reference(f, q, s, once);
            lemma_predicate_end_is_reference(f, q, once, twice);
            lemma_strip_end_by_idempotent(s, q);
        },
        ConcretePattern::Str(p) => {
            lemma_strip_end_str_rest(s, p@);
        },
        ConcretePattern::Char(c) => {
            lemma_strip_end_by_idempotent(s, char_pred(c));
        },
    }
}

/// A text whose every character matches trims to nothing, from either end or both.
pub proof fn lemma_all_matching_strips_to_empty(s: Seq<char>, p: spec_fn(char) -> bool)
    requires
        forall|i: int| 0 <= i < s.len() ==> p(#[trigger] s[i]),
    ensures
        strip_start_by(s, p).len() == 0,
        strip_end_by(s, p).len() == 0,
        strip_both_by(s, p).len() == 0,
{
    lemma_leading_cut(s, p, s.len() as int);
    lemma_trailing_cut(s, p, 0);
    assert(s.skip(s.len() as int).len() == 0);
    assert(strip_end_by(Seq::<char>::empty(), p) == Seq::<char>::empty());
    assert(strip_start_by(s, p) =~= Seq::<char>::empty());
}

/// `n` copies of `pat`, one after another.
pub open spec fn repeat_seq(pat: Seq<char>, n: nat) -> Seq<char>
    decreases n,
{
    if n == 0 {
        Seq::empty()
    } else {
        pat + repeat_seq(pat, (n - 1) as nat)
    }
}

/// The last copy can be split off as well as the first.
proof fn lemma_repeat_seq_last(pat: Seq<char>, n: nat)
    requires
        n > 0,
    ensures
        repeat_seq(pat, n) == repeat_seq(pat, (n - 1) as nat) + pat,
    decreases n,
{
    if n == 1 {
        assert(repeat_seq(pat, 0) == Seq::<char>::empty());
        assert(pat + Seq::<char>::empty() =~= Seq::<char>::empty() + pat);
    } else {
        lemma_repeat_seq_last(pat, (n - 1) as nat);
        assert(pat + (repeat_seq(pat, (n - 2) as nat) + pat) =~= (pat + repeat_seq(
            pat,
            (n - 2) as nat,
        )) + pat);
    }
}

/// A text made of whole copies of `pat` trims to nothing from either end.
pub proof fn lemma_copies_strip_to_empty(pat: Seq<char>, n: nat)
    ensures
        strip_start_str(repeat_seq(pat, n), pat).len() == 0,
        strip_end_str(repeat_seq(pat, n), pat).len() == 0,
    decreases n,
{
    if n > 0 {
        lemma_copies_strip_to_empty(pat, (n - 1) as nat);
        let s = repeat_seq(pat, n);
        let prev = repeat_seq(pat, (n - 1) as nat);
        if pat.len() > 0 {
            assert(s.take(pat.len() as int) =~= pat);
            assert(s.skip(pat.len() as int) =~= prev);
            lemma_repeat_seq_last(pat, n);
            assert(s.skip(s.len() - pat.len()) =~= pat);
            assert(s.take(s.len() - pat.len()) =~= prev);
        } else {
            assert(s =~= prev);
        }
    }
}

} // verus!
