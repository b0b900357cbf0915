//! Boundary search: how many characters a pattern strips from each end of a text, and
//! the byte length of what comes before the cut.
use vstd::prelude::*;
use crate::pattern::CharPredicate;
use crate::strip::{strip_start_str, strip_end_str};
use vstd::std_specs::iter::IteratorSpec;
use crate::utf8_len::{byte_len, enc_len, char_len_utf8, lemma_enc_len_split, lemma_enc_len_step};

verus! {

broadcast use vstd::string::group_string_axioms;

/// The first `k` characters of `s` were accepted by `pred`, and the next one (if any) was
/// rejected.
pub open spec fn leading_cut<P: CharPredicate>(pred: &P, s: Seq<char>, k: int) -> bool {
    &&& 0 <= k <= s.len()
    &&& forall|i: int| 0 <= i < k ==> pred.gives(#[trigger] s[i], true)
    &&& k < s.len() ==> pred.gives(s[k], false)
}

/// The characters of `s` from `e` on were accepted by `pred`, and the one before (if any)
/// was rejected.
pub open spec fn trailing_cut<P: CharPredicate>(pred: &P, s: Seq<char>, e: int) -> bool {
    &&& 0 <= e <= s.len()
    &&& forall|i: int| e <= i < s.len() ==> pred.gives(#[trigger] s[i], true)
    &&& e > 0 ==> pred.gives(s[e - 1], false)
}

/// `pred` may be called on every character of `s`.
pub open spec fn ready_on<P: CharPredicate>(pred: &P, s: Seq<char>) -> bool {
    forall|i: int| 0 <= i < s.len() ==> pred.ready(#[trigger] s[i])
}

/// Counts the leading characters of `s` that `pred` accepts, stopping at the first one it
/// rejects. Returns their byte length and their number.
pub fn leading_len<P: CharPredicate>(s: &str, pred: &P) -> (res: (usize, Ghost<int>))
    requires
        ready_on(pred, s@),
    ensures
        leading_cut(pred, s@, res.1@),
        res.0 == enc_len(s@.take(res.1@)),
{
    let total = byte_len(s);
    let mut it = s.chars();
    let mut b: usize = 0;
    let ghost mut k: int = 0;
    proof {
        assert(s@.skip(0) =~= s@);
        assert(s@.take(0) =~= Seq::<char>::empty());
    }
    loop
        invariant
            ready_on(pred, s@),
            total == enc_len(s@),
            0 <= k <= s@.len(),
            it.remaining() == s@.skip(k),
            b == enc_len(s@.take(k)),
            forall|i: int| 0 <= i < k ==> pred.gives(#[trigger] s@[i], true),
        decreases s@.len() - k,
    {
        match it.next() {
            None => {
                return (b, Ghost(k));
            },
            Some(c) => {
                assert(c == s@[k]);
                if pred.test(c) {
                    proof {
                        lemma_enc_len_step(s@, k);
                        lemma_enc_len_split(s@, k + 1);
                    }
                    b = b + char_len_utf8(c);
                    proof {
                        k = k + 1;
                        assert(s@.skip(k - 1).drop_first() =~= s@.skip(k));
                    }
                } else {
                    return (b, Ghost(k));
                }
            },
        }
    }
}

/// Finds where the trailing run of characters that `pred` accepts begins: every character
/// is tested, and the cut follows the last one rejected. Returns the byte length of what
/// precedes the cut and its number of characters.
pub fn trailing_len<P: CharPredicate>(s: &str, pred: &P) -> (res: (usize, Ghost<int>))
    requires
        ready_on(pred, s@),
    ensures
        trailing_cut(pred, s@, res.1@),
        res.0 == enc_len(s@.take(res.1@)),
{
    let total = byte_len(s);
    let mut it = s.chars();
    let mut b: usize = 0;
    let mut end_bytes: usize = 0;
    let ghost mut k: int = 0;
    let ghost mut e: int = 0;
    proof {
        assert(s@.skip(0) =~= s@);
        assert(s@.take(0) =~= Seq::<char>::empty());
    }
    loop
        invariant
            ready_on(pred, s@),
            total == enc_len(s@),
            0 <= e <= k <= s@.len(),
            it.remaining() == s@.skip(k),
            b == enc_len(s@.take(k)),
            end_bytes == enc_len(s@.take(e)),
            forall|i: int| e <= i < k ==> pred.gives(#[trigger] s@[i], true),
            e > 0 ==> pred.gives(s@[e - 1], false),
        decreases s@.len() - k,
    {
        match it.next() {
            None => {
                return (end_bytes, Ghost(e));
            },
            Some(c) => {
                assert(c == s@[k]);
                let keep = !pred.test(c);
                proof {
                    lemma_enc_len_step(s@, k);
                    lemma_enc_len_split(s@, k + 1);
                }
                b = b + char_len_utf8(c);
                proof {
                    k = k + 1;
                    assert(s@.skip(k - 1).drop_first() =~= s@.skip(k));
                }
                if keep {
                    end_bytes = b;
                    proof {
                        e = k;
                    }
                }
            },
        }
    }
}

/// Relies on `str::strip_prefix`: what follows one leading copy of `pat`, or `None` where
/// `s` does not start with `pat`.
#[verifier::external_body]
fn strip_prefix_once<'a>(s: &'a str, pat: &str) -> (r: Option<&'a str>)
    ensures
        r is Some <==> (pat@.len() <= s@.len() && s@.take(pat@.len() as int) == pat@),
        r matches Some(t) ==> t@ == s@.skip(pat@.len() as int),
{
    s.strip_prefix(pat)
}

/// Relies on `str::strip_suffix`: what precedes one trailing copy of `pat`, or `None` where
/// `s` does not end with `pat`.
#[verifier::external_body]
fn strip_suffix_once<'a>(s: &'a str, pat: &str) -> (r: Option<&'a str>)
    ensures
        r is Some <==> (pat@.len() <= s@.len() && s@.skip(s@.len() - pat@.len()) == pat@),
        r matches Some(t) ==> t@ == s@.take(s@.len() - pat@.len()),
{
    s.strip_suffix(pat)
}

/// Counts the characters taken by the whole copies of `pat` at the start of `s`. Returns
/// their byte length and their number.
pub fn leading_str_len(s: &str, pat: &str) -> (res: (usize, Ghost<int>))
    ensures
        0 <= res.1@ <= s@.len(),
        s@.skip(res.1@) == strip_start_str(s@, pat@),
        res.0 == enc_len(s@.take(res.1@)),
{
    let total = byte_len(s);
    proof {
        assert(s@.skip(0) =~= s@);
        assert(s@.take(0) =~= Seq::<char>::empty());
    }
    if pat.is_empty() {
        return (0, Ghost(0));
    }
    let mut cur: &str = s;
    let ghost mut k: int = 0;
    loop
        invariant
            pat@.len() > 0,
            0 <= k <= s@.len(),
            cur@ == s@.skip(k),
            strip_start_str(cur@, pat@) == strip_start_str(s@, pat@),
        ensures
            0 <= k <= s@.len(),
            cur@ == s@.skip(k),
            cur@ == strip_start_str(s@, pat@),
        decreases cur@.len(),
    {
        match strip_prefix_once(cur, pat) {
            Some(t) => {
                proof {
                    assert(s@.skip(k).skip(pat@.len() as int) =~= s@.skip(k + pat@.len()));
                    k = k + pat@.len();
                }
                cur = t;
            },
            None => {
                assert(strip_start_str(cur@, pat@) == cur@);
                break;
            },
        }
    }
    let rest = byte_len(cur);
    proof {
        lemma_enc_len_split(s@, k);
    }
    (total - rest, Ghost(k))
}

/// Counts the characters that remain once the whole copies of `pat` at the end of `s` are
/// cut off. Returns their byte length and their number.
pub fn trailing_str_len(s: &str, pat: &str) -> (res: (usize, Ghost<int>))
    ensures
        0 <= res.1@ <= s@.len(),
        s@.take(res.1@) == strip_end_str(s@, pat@),
        res.0 == enc_len(s@.take(res.1@)),
{
    proof {
        assert(s@.take(s@.len() as int) =~= s@);
    }
    if pat.is_empty() {
        return (byte_len(s), Ghost(s@.len() as int));
    }
    let mut cur: &str = s;
    let ghost mut e: int = s@.len() as int;
    loop
        invariant
            pat@.len() > 0,
            0 <= e <= s@.len(),
            cur@ == s@.take(e),
            strip_end_str(cur@, pat@) == strip_end_str(s@, pat@),
        ensures
            0 <= e <= s@.len(),
            cur@ == s@.take(e),
            cur@ == strip_end_str(s@, pat@),
        decreases cur@.len(),
    {
        match strip_suffix_once(cur, pat) {
            Some(t) => {
                proof {
                    assert(s@.take(e).take(e - pat@.len()) =~= s@.take(e - pat@.len()));
                    e = e - pat@.len();
                }
                cur = t;
            },
            None => {
                assert(strip_end_str(cur@, pat@) == cur@);
                break;
            },
        }
    }
    (byte_len(cur), Ghost(e))
}

} // verus!
