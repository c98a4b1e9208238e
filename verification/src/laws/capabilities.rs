//! Capabilities: which line of a process's status tells them, and which bit is which.

use vstd::bits::lemma_u64_shr_is_div;
use vstd::prelude::*;

use crate::laws::text::{
    is_blank, law_trim_cuts_white_space_only, law_trim_ignores_what_is_around,
};
use crate::numbers::parsed_number;
use crate::platform::linux::capabilities::{
    effective_set, first_listed, holds, listed_on, CapabilityError,
};
use crate::text::{lines_of, trimmed, white_space};

verus! {

/// A capability is held exactly where the bit of its number is set.
pub proof fn law_capability_is_a_bit(set: u64, cap: u64)
    requires
        cap < 64,
    ensures
        holds(set as nat, cap as nat) <==> (set >> cap) & 1 == 1,
{
    lemma_u64_shr_is_div(set, cap);
    let shifted = set >> cap;
    assert(shifted & 1 == shifted % 2) by (bit_vector);
}

/// What a line of the status begins with where it tells the effective capabilities.
pub open spec fn label() -> Seq<char> {
    seq!['C', 'a', 'p', 'E', 'f', 'f', ':']
}

proof fn lemma_labelled(line: Seq<char>, raw: Seq<char>)
    requires
        line == label() + raw,
    ensures
        listed_on(line) is Some,
        trimmed(listed_on(line)->0) == trimmed(raw),
{
    reveal_strlit("CapEff:");
    reveal_strlit("CapEff:\t");
    assert("CapEff:"@ =~= label());
    assert("CapEff:\t"@ =~= label() + seq!['\t']);
    assert(line.subrange(0, 7) =~= label());
    assert(line.skip(7) =~= raw);
    if "CapEff:\t"@.is_prefix_of(line) {
        let rest = line.skip(8);
        assert(raw =~= seq!['\t'] + rest) by {
            assert(line.subrange(0, 8)[7] == '\t');
        }
        law_trim_cuts_white_space_only(rest);
        let (before, after) = choose|before: Seq<char>, after: Seq<char>|
            is_blank(before) && is_blank(after) && rest == #[trigger] (before + trimmed(rest)
                + after);
        let longer = seq!['\t'] + before;
        assert(white_space('\t'));
        assert forall|i: int| 0 <= i < longer.len() implies white_space(#[trigger] longer[i]) by {
            if i > 0 {
                assert(longer[i] == before[i - 1]);
            }
        }
        assert(raw =~= longer + trimmed(rest) + after);
        law_trim_ignores_what_is_around(longer, trimmed(rest), after);
    }
}

proof fn lemma_unlabelled(line: Seq<char>)
    ensures
        listed_on(line) is Some <==> label().is_prefix_of(line),
{
    reveal_strlit("CapEff:");
    reveal_strlit("CapEff:\t");
    assert("CapEff:"@ =~= label());
    if "CapEff:\t"@.is_prefix_of(line) {
        assert(line.subrange(0, 7) =~= label()) by {
            assert(line.subrange(0, 8).subrange(0, 7) =~= line.subrange(0, 7));
            assert("CapEff:\t"@.subrange(0, 7) =~= label());
        }
    }
}

proof fn lemma_first_listed(before: Seq<Seq<char>>, line: Seq<char>, after: Seq<Seq<char>>)
    requires
        forall|i: int| 0 <= i < before.len() ==> !label().is_prefix_of(#[trigger] before[i]),
        label().is_prefix_of(line),
    ensures
        first_listed(before + seq![line] + after) == listed_on(line),
    decreases before.len(),
{
    let all = before + seq![line] + after;
    lemma_unlabelled(all[0]);
    if before.len() > 0 {
        assert(all[0] == before[0]);
        lemma_first_listed(before.drop_first(), line, after);
        assert(all.drop_first() =~= before.drop_first() + seq![line] + after);
    } else {
        assert(all[0] == line);
    }
}

proof fn lemma_none_listed(all: Seq<Seq<char>>)
    requires
        forall|i: int| 0 <= i < all.len() ==> !label().is_prefix_of(#[trigger] all[i]),
    ensures
        first_listed(all) is None,
    decreases all.len(),
{
    if all.len() > 0 {
        lemma_unlabelled(all[0]);
        lemma_none_listed(all.drop_first());
    }
}

/// The first line with the label decides: what follows the label, white space around it aside, is
/// the set in hexadecimal, or is invalid.
pub proof fn law_first_labelled_line_decides(
    status: Seq<char>,
    before: Seq<Seq<char>>,
    raw: Seq<char>,
    after: Seq<Seq<char>>,
)
    requires
        lines_of(status) == before + seq![label() + raw] + after,
        forall|i: int| 0 <= i < before.len() ==> !label().is_prefix_of(#[trigger] before[i]),
    ensures
        match parsed_number(trimmed(raw), 16, 0xffff_ffff_ffff_ffff) {
            Some(n) => effective_set(status) == Ok::<nat, CapabilityError>(n),
            None => effective_set(status) == Err::<nat, CapabilityError>(CapabilityError::Invalid),
        },
{
    let line = label() + raw;
    assert(line.subrange(0, 7) =~= label());
    lemma_first_listed(before, line, after);
    lemma_labelled(line, raw);
}

/// Where no line has the label, the set is missing.
pub proof fn law_no_labelled_line_is_an_error(status: Seq<char>)
    requires
        forall|i: int|
            0 <= i < lines_of(status).len() ==> !label().is_prefix_of(
                #[trigger] lines_of(status)[i],
            ),
    ensures
        effective_set(status) == Err::<nat, CapabilityError>(CapabilityError::Missing),
{
    lemma_none_listed(lines_of(status));
}

} // verus!
