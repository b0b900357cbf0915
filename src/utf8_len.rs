//! Byte lengths of UTF-8 encodings, and the std calls that cut a `String` at a byte offset.
use vstd::prelude::*;
use vstd::utf8::encode_utf8;

verus! {

/// Number of bytes in the UTF-8 encoding of `s`.
pub open spec fn enc_len(s: Seq<char>) -> nat {
    encode_utf8(s).len()
}

/// Encoding distributes over concatenation.
pub proof fn lemma_encode_concat(a: Seq<char>, b: Seq<char>)
    ensures
        encode_utf8(a + b) == encode_utf8(a) + encode_utf8(b),
    decreases a.len(),
{
    if a.len() == 0 {
        assert(a + b =~= b);
        assert(encode_utf8(a) =~= Seq::<u8>::empty());
        assert(encode_utf8(a) + encode_utf8(b) =~= encode_utf8(b));
    } else {
        assert((a + b).drop_first() =~= a.drop_first() + b);
        assert((a + b)[0] == a[0]);
        lemma_encode_concat(a.drop_first(), b);
        assert(encode_utf8(a + b) =~= encode_utf8(a) + encode_utf8(b));
    }
}

/// The byte length of a prefix never exceeds that of the whole sequence, and the two
/// parts of a split add up.
pub proof fn lemma_enc_len_split(s: Seq<char>, k: int)
    requires
        0 <= k <= s.len(),
    ensures
        enc_len(s) == enc_len(s.take(k)) + enc_len(s.skip(k)),
{
    assert(s =~= s.take(k) + s.skip(k));
    lemma_encode_concat(s.take(k), s.skip(k));
}

/// Growing a prefix by one character adds that character's byte length.
pub proof fn lemma_enc_len_step(s: Seq<char>, i: int)
    requires
        0 <= i < s.len(),
    ensures
        enc_len(s.take(i + 1)) == enc_len(s.take(i)) + enc_len(seq![s[i]]),
{
    assert(s.take(i + 1) =~= s.take(i) + seq![s[i]]);
    lemma_encode_concat(s.take(i), seq![s[i]]);
}

/// Length in bytes of the UTF-8 text `s`.
pub(crate) fn byte_len(s: &str) -> (r: usize)
    ensures
        r == enc_len(s@),
{
    broadcast use vstd::slice::group_slice_axioms;

    s.as_bytes().len()
}

/// Relies on `char::len_utf8`: the number of bytes that the character takes in UTF-8.
#[verifier::external_body]
pub(crate) fn char_len_utf8(c: char) -> (r: usize)
    ensures
        r == enc_len(seq![c]),
{
    c.len_utf8()
}

/// Relies on `String::truncate`: cutting the buffer at the byte length of its first `k`
/// characters keeps exactly those characters. Such an offset lies on a character
/// boundary, so the call does not panic.
#[verifier::external_body]
pub(crate) fn truncate_at(s: &mut String, n: usize)
    requires
        exists|k: int| 0 <= k <= old(s)@.len() && n == enc_len(#[trigger] old(s)@.take(k)),
    ensures
        forall|k: int|
            0 <= k <= old(s)@.len() && n == enc_len(#[trigger] old(s)@.take(k)) ==> final(s)@
                == old(s)@.take(k),
{
    s.truncate(n)
}

/// Relies on `String::drain`: removing the bytes before the byte length of the first `k`
/// characters drops exactly those characters and moves the rest to the front of the same
/// allocation. Such an offset lies on a character boundary, so the call does not panic.
#[verifier::external_body]
pub(crate) fn drain_front(s: &mut String, n: usize)
    requires
        exists|k: int| 0 <= k <= old(s)@.len() && n == enc_len(#[trigger] old(s)@.take(k)),
    ensures
        forall|k: int|
            0 <= k <= old(s)@.len() && n == enc_len(#[trigger] old(s)@.take(k)) ==> final(s)@
                == old(s)@.skip(k),
{
    s.drain(..n);
}

/// Keeps the characters `start..end` of `s`, given the byte lengths of the first `start`
/// and first `end` characters: the buffer is cut after `end`, and what follows `start` is
/// moved to the front.
pub(crate) fn retain_range(
    s: &mut String,
    start_bytes: usize,
    end_bytes: usize,
    Ghost(start): Ghost<int>,
    Ghost(end): Ghost<int>,
)
    requires
        0 <= start <= end <= old(s)@.len(),
        start_bytes == enc_len(old(s)@.take(start)),
        end_bytes == enc_len(old(s)@.take(end)),
    ensures
        final(s)@ == old(s)@.subrange(start, end),
{
    let ghost s0 = s@;
    truncate_at(s, end_bytes);
    assert(s@ == s0.take(end));
    if start_bytes > 0 {
        assert(s@.take(start) =~= s0.take(start));
        drain_front(s, start_bytes);
        assert(s@ =~= s0.subrange(start, end));
    } else {
        proof {
            lemma_enc_len_empty(s0.take(start));
        }
        assert(s@ =~= s0.subrange(start, end));
    }
}

/// Only the empty sequence has an empty encoding.
pub proof fn lemma_enc_len_empty(s: Seq<char>)
    ensures
        enc_len(s) == 0 ==> s.len() == 0,
{
    if s.len() > 0 {
        vstd::utf8::char_is_scalar(s[0]);
        assert(encode_utf8(s) == vstd::utf8::encode_scalar(s[0] as u32) + encode_utf8(
            s.drop_first(),
        ));
    }
}

} // verus!
