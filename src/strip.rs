//! What trimming leaves: matching units are stripped one at a time, from the edges inward.
use vstd::prelude::*;

verus! {

/// `s` without its leading characters that satisfy `p`.
pub open spec fn strip_start_by(s: Seq<char>, p: spec_fn(char) -> bool) -> Seq<char>
    decreases s.len(),
{
    if s.len() > 0 && p(s[0]) {
        strip_start_by(s.drop_first(), p)
    } else {
        s
    }
}

/// `s` without its trailing characters that satisfy `p`.
pub open spec fn strip_end_by(s: Seq<char>, p: spec_fn(char) -> bool) -> Seq<char>
    decreases s.len(),
{
    if s.len() > 0 && p(s.last()) {
        strip_end_by(s.drop_last(), p)
    } else {
        s
    }
}

/// `s` without the characters at both ends that satisfy `p`.
pub open spec fn strip_both_by(s: Seq<char>, p: spec_fn(char) -> bool) -> Seq<char> {
    strip_end_by(strip_start_by(s, p), p)
}

/// `s` without the whole copies of `pat` that it starts with. An empty `pat` strips nothing.
pub open spec fn strip_start_str(s: Seq<char>, pat: Seq<char>) -> Seq<char>
    decreases s.len(),
{
    if pat.len() > 0 && pat.len() <= s.len() && s.take(pat.len() as int) == pat {
        strip_start_str(s.skip(pat.len() as int), pat)
    } else {
        s
    }
}

/// `s` without the whole copies of `pat` that it ends with. An empty `pat` strips nothing.
pub open spec fn strip_end_str(s: Seq<char>, pat: Seq<char>) -> Seq<char>
    decreases s.len(),
{
    if pat.len() > 0 && pat.len() <= s.len() && s.skip(s.len() - pat.len()) == pat {
        strip_end_str(s.take(s.len() - pat.len()), pat)
    } else {
        s
    }
}

/// Where the first `k` characters satisfy `p` and the next one (if any) does not, the
/// stripped sequence starts at `k`.
pub proof fn lemma_leading_cut(s: Seq<char>, p: spec_fn(char) -> bool, k: int)
    requires
        0 <= k <= s.len(),
        forall|i: int| 0 <= i < k ==> p(#[trigger] s[i]),
        k < s.len() ==> !p(s[k]),
    ensures
        s.skip(k) == strip_start_by(s, p),
    decreases k,
{
    if k == 0 {
        assert(s.skip(0) =~= s);
    } else {
        let t = s.drop_first();
        assert forall|i: int| 0 <= i < k - 1 implies p(#[trigger] t[i]) by {
            assert(t[i] == s[i + 1]);
        }
        if k - 1 < t.len() {
            assert(t[k - 1] == s[k]);
        }
        lemma_leading_cut(t, p, k - 1);
        assert(t.skip(k - 1) =~= s.skip(k));
        assert(p(s[0]));
    }
}

/// Where the characters from `e` on satisfy `p` and the one before (if any) does not, the
/// stripped sequence ends at `e`.
pub proof fn lemma_trailing_cut(s: Seq<char>, p: spec_fn(char) -> bool, e: int)
    requires
        0 <= e <= s.len(),
        forall|i: int| e <= i < s.len() ==> p(#[trigger] s[i]),
        e > 0 ==> !p(s[e - 1]),
    ensures
        s.take(e) == strip_end_by(s, p),
    decreases s.len() - e,
{
    if e == s.len() {
        assert(s.take(e) =~= s);
    } else {
        let t = s.drop_last();
        assert(p(s[s.len() - 1]));
        assert forall|i: int| e <= i < t.len() implies p(#[trigger] t[i]) by {
            assert(t[i] == s[i]);
        }
        if e > 0 {
            assert(t[e - 1] == s[e - 1]);
        }
        lemma_trailing_cut(t, p, e);
        assert(t.take(e) =~= s.take(e));
    }
}

/// After a leading strip, what is left starts with a character that `p` rejects, or is empty.
pub proof fn lemma_strip_start_by_head(s: Seq<char>, p: spec_fn(char) -> bool)
    ensures
        strip_start_by(s, p).len() > 0 ==> !p(strip_start_by(s, p)[0]),
        strip_start_by(s, p).len() <= s.len(),
        exists|k: int| 0 <= k <= s.len() && strip_start_by(s, p) == #[trigger] s.skip(k),
    decreases s.len(),
{
    if s.len() > 0 && p(s[0]) {
        lemma_strip_start_by_head(s.drop_first(), p);
        let k = choose|k: int|
            0 <= k <= s.drop_first().len() && strip_start_by(s.drop_first(), p)
                == #[trigger] s.drop_first().skip(k);
        assert(s.drop_first().skip(k) =~= s.skip(k + 1));
    } else {
        assert(s.skip(0) =~= s);
    }
}

/// After a trailing strip, what is left ends with a character that `p` rejects, or is empty.
pub proof fn lemma_strip_end_by_last(s: Seq<char>, p: spec_fn(char) -> bool)
    ensures
        strip_end_by(s, p).len() > 0 ==> !p(strip_end_by(s, p).last()),
        exists|e: int| 0 <= e <= s.len() && strip_end_by(s, p) == #[trigger] s.take(e),
    decreases s.len(),
{
    if s.len() > 0 && p(s.last()) {
        lemma_strip_end_by_last(s.drop_last(), p);
        let e = choose|e: int|
            0 <= e <= s.drop_last().len() && strip_end_by(s.drop_last(), p)
                == #[trigger] s.drop_last().take(e);
        assert(s.drop_last().take(e) =~= s.take(e));
    } else {
        assert(s.take(s.len() as int) =~= s);
    }
}

} // verus!
