//! Trimming a `String` in place: find the cut, then shorten the buffer and move what is
//! kept to its front.
use vstd::prelude::*;
use crate::pattern::CharPredicate;
use crate::scan::{
    leading_cut, trailing_cut, ready_on, leading_len, trailing_len, leading_str_len,
    trailing_str_len,
};
use crate::strip::{
    strip_start_str, strip_end_str, strip_both_by, lemma_leading_cut, lemma_trailing_cut,
};
use crate::utf8_len::{
    truncate_at, drain_front, retain_range, lemma_enc_len_split, lemma_enc_len_empty,
};

verus! {

/// `pred` answers as the spec predicate `q` does.
pub open spec fn answers_as<P: CharPredicate>(pred: &P, q: spec_fn(char) -> bool) -> bool {
    forall|c: char, r: bool| #[trigger] pred.gives(c, r) <==> r == q(c)
}

/// Strips the leading characters that `pred` accepts. Returns how many were stripped.
pub(crate) fn cut_start_by<P: CharPredicate>(s: &mut String, pred: &P) -> (k: Ghost<int>)
    requires
        ready_on(pred, old(s)@),
    ensures
        leading_cut(pred, old(s)@, k@),
        final(s)@ == old(s)@.skip(k@),
{
    let (start_bytes, Ghost(k)) = leading_len(s.as_str(), pred);
    drain_front(s, start_bytes);
    Ghost(k)
}

/// Strips the trailing characters that `pred` accepts. Returns how many are kept.
pub(crate) fn cut_end_by<P: CharPredicate>(s: &mut String, pred: &P) -> (e: Ghost<int>)
    requires
        ready_on(pred, old(s)@),
    ensures
        trailing_cut(pred, old(s)@, e@),
        final(s)@ == old(s)@.take(e@),
{
    let (end_bytes, Ghost(e)) = trailing_len(s.as_str(), pred);
    truncate_at(s, end_bytes);
    Ghost(e)
}

/// Strips the characters at both ends that a predicate which answers as `q` accepts.
pub(crate) fn cut_both_by<P: CharPredicate>(
    s: &mut String,
    pred: &P,
    Ghost(q): Ghost<spec_fn(char) -> bool>,
)
    requires
        ready_on(pred, old(s)@),
        answers_as(pred, q),
    ensures
        final(s)@ == strip_both_by(old(s)@, q),
{
    let ghost s0 = s@;
    let (start_bytes, Ghost(k)) = leading_len(s.as_str(), pred);
    let (end_bytes, Ghost(e)) = trailing_len(s.as_str(), pred);
    proof {
        assert forall|i: int| 0 <= i < k implies q(#[trigger] s0[i]) by {
            assert(pred.gives(s0[i], true));
        }
        if k < s0.len() {
            assert(pred.gives(s0[k], false));
        }
        lemma_leading_cut(s0, q, k);
    }
    if start_bytes >= end_bytes {
        proof {
            assert(s0.take(0) =~= Seq::<char>::empty());
            if k < s0.len() {
                // the first character kept is rejected, so the trailing run starts after it
                if e <= k {
                    assert(pred.gives(s0[k], true));
                }
                lemma_enc_len_split(s0.take(e), k);
                assert(s0.take(e).take(k) =~= s0.take(k));
                lemma_enc_len_empty(s0.subrange(k, e));
                assert(s0.take(e).skip(k) =~= s0.subrange(k, e));
                assert(s0[k] == s0.subrange(k, e)[0]);
            }
            assert(s0.skip(k) =~= Seq::<char>::empty());
        }
        truncate_at(s, 0);
        proof {
            assert(s@ =~= Seq::<char>::empty());
        }
    } else {
        proof {
            if k == s0.len() {
                assert(s0.take(k) =~= s0);
                lemma_enc_len_split(s0, e);
            }
            if e <= k {
                lemma_enc_len_split(s0.take(k), e);
                assert(s0.take(k).take(e) =~= s0.take(e));
            }
            let t = s0.skip(k);
            assert forall|i: int| e - k <= i < t.len() implies q(#[trigger] t[i]) by {
                assert(t[i] == s0[i + k]);
                assert(pred.gives(s0[i + k], true));
            }
            assert(pred.gives(s0[e - 1], false));
            assert(t[e - k - 1] == s0[e - 1]);
            lemma_trailing_cut(t, q, e - k);
            assert(t.take(e - k) =~= s0.subrange(k, e));
        }
        retain_range(s, start_bytes, end_bytes, Ghost(k), Ghost(e));
    }
}

/// Strips the whole copies of `pat` at the start of `s`.
pub(crate) fn cut_start_str(s: &mut String, pat: &str)
    ensures
        final(s)@ == strip_start_str(old(s)@, pat@),
{
    let (start_bytes, _) = leading_str_len(s.as_str(), pat);
    drain_front(s, start_bytes);
}

/// Strips the whole copies of `pat` at the end of `s`.
pub(crate) fn cut_end_str(s: &mut String, pat: &str)
    ensures
        final(s)@ == strip_end_str(old(s)@, pat@),
{
    let (end_bytes, _) = trailing_str_len(s.as_str(), pat);
    truncate_at(s, end_bytes);
}

} // verus!
