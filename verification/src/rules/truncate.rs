//! Cutting a text to a number of bytes without splitting a character.

use vstd::prelude::*;
use vstd::utf8::{
    encode_utf8, encode_utf8_decode_utf8, encode_utf8_first_scalar, encode_utf8_valid_utf8,
    is_char_boundary, is_char_boundary_start_end_of_seq, pop_first_scalar,
};

use crate::text::{lemma_encode_utf8_concat, lemma_encode_utf8_width};

verus! {

/// The longest prefix of `s` that takes at most `max` bytes.
pub open spec fn fitting_prefix(s: Seq<char>, max: nat) -> Seq<char>
    decreases s.len(),
{
    if encode_utf8(s).len() <= max || s.len() == 0 {
        s
    } else {
        fitting_prefix(s.drop_last(), max)
    }
}

/// Every whole number of characters ends on a character boundary.
proof fn lemma_prefix_is_boundary(s: Seq<char>, k: int)
    requires
        0 <= k <= s.len(),
    ensures
        is_char_boundary(encode_utf8(s), encode_utf8(s.take(k)).len() as int),
    decreases k,
{
    encode_utf8_valid_utf8(s);
    if k == 0 {
        assert(s.take(0) =~= Seq::<char>::empty());
        is_char_boundary_start_end_of_seq(encode_utf8(s));
    } else {
        let rest = s.drop_first();
        lemma_prefix_is_boundary(rest, k - 1);
        assert(s.take(k).drop_first() =~= rest.take(k - 1));
        assert(s.take(k)[0] == s[0]);
        encode_utf8_first_scalar(s);
        assert(pop_first_scalar(encode_utf8(s)) =~= encode_utf8(rest));
        let index = encode_utf8(s.take(k)).len() as int;
        lemma_encode_utf8_concat(s.take(k), s.skip(k));
        assert(s =~= s.take(k) + s.skip(k));
        lemma_encode_utf8_width(s.take(k));
    }
}

/// A prefix that fits, and that no longer prefix of the text does, is the longest that fits.
proof fn lemma_fitting_prefix(s: Seq<char>, n: int, max: nat)
    requires
        0 <= n <= s.len(),
        encode_utf8(s.take(n)).len() <= max,
        forall|k: int| n < k <= s.len() ==> #[trigger] encode_utf8(s.take(k)).len() > max,
    ensures
        fitting_prefix(s, max) == s.take(n),
    decreases s.len(),
{
    assert(s.take(s.len() as int) =~= s);
    if n < s.len() {
        let shorter = s.drop_last();
        assert forall|k: int| n < k <= shorter.len() implies #[trigger] encode_utf8(
            shorter.take(k),
        ).len() > max by {
            assert(shorter.take(k) =~= s.take(k));
        }
        assert(shorter.take(n) =~= s.take(n));
        lemma_fitting_prefix(shorter, n, max);
    }
}

/// A prefix that takes exactly `max` bytes is the longest that fits.
pub proof fn lemma_exact_prefix_fits(p: Seq<char>, s: Seq<char>, max: nat)
    requires
        p.is_prefix_of(s),
        encode_utf8(p).len() == max,
    ensures
        fitting_prefix(s, max) == p,
{
    let n = p.len() as int;
    assert(s.take(n) =~= p);
    assert forall|k: int| n < k <= s.len() implies #[trigger] encode_utf8(s.take(k)).len()
        > max by {
        let more = s.take(k).skip(n);
        assert(s.take(k) =~= p + more);
        lemma_encode_utf8_concat(p, more);
        lemma_encode_utf8_width(more);
    }
    lemma_fitting_prefix(s, n, max);
}

/// The longest prefix of `s` that takes at most `max_bytes` bytes.
pub fn truncate_to_char_boundary(s: &str, max_bytes: usize) -> (r: &str)
    ensures
        r@ == fitting_prefix(s@, max_bytes as nat),
{
    let len: usize = s.as_bytes().len();
    if len <= max_bytes {
        return s;
    }
    let ghost bytes = encode_utf8(s@);
    proof {
        encode_utf8_valid_utf8(s@);
        is_char_boundary_start_end_of_seq(bytes);
    }
    let mut end: usize = max_bytes;
    while !s.is_char_boundary(end)
        invariant
            bytes == encode_utf8(s@),
            is_char_boundary(bytes, 0),
            end <= max_bytes < bytes.len(),
            forall|k: int| end < k <= max_bytes ==> !is_char_boundary(bytes, k),
        decreases end,
    {
        end -= 1;
    }
    let (head, tail) = s.split_at(end);
    proof {
        assert(encode_utf8(head@) + encode_utf8(tail@) =~= bytes);
        lemma_encode_utf8_concat(head@, tail@);
        encode_utf8_decode_utf8(head@ + tail@);
        encode_utf8_decode_utf8(s@);
        assert(head@ + tail@ == s@);
        let n = head@.len() as int;
        assert(s@.take(n) =~= head@);
        assert forall|k: int| n < k <= s@.len() implies #[trigger] encode_utf8(s@.take(k)).len()
            > max_bytes by {
            lemma_prefix_is_boundary(s@, k);
            let more = s@.take(k).skip(n);
            assert(s@.take(k) =~= head@ + more);
            lemma_encode_utf8_concat(head@, more);
            lemma_encode_utf8_width(more);
        }
        lemma_fitting_prefix(s@, n, max_bytes as nat);
    }
    head
}

} // verus!
