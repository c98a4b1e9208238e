//! Text: searching, trimming, splitting into lines.

use vstd::prelude::*;
use vstd::utf8::encode_utf8;

use crate::rules::truncate::fitting_prefix;
use crate::text::{
    has_substring, lemma_find_char, lines_of, occurs_at, strip_cr, trim_end,
    trim_start, trimmed, white_space,
};

verus! {

/// Whether a text is made of something, the needle, and something more, each possibly empty.
pub open spec fn occurs_in(needle: Seq<char>, hay: Seq<char>) -> bool {
    exists|before: Seq<char>, after: Seq<char>| hay == #[trigger] (before + needle + after)
}

/// A text is found wherever something stands before and after it, and nowhere else.
pub proof fn law_search_finds_what_is_there(hay: Seq<char>, needle: Seq<char>)
    ensures
        has_substring(hay, needle) <==> occurs_in(needle, hay),
{
    if has_substring(hay, needle) {
        let at = choose|at: int| occurs_at(hay, needle, at);
        let before = hay.take(at);
        let after = hay.skip(at + needle.len());
        assert(hay =~= before + needle + after);
    }
    if occurs_in(needle, hay) {
        let (before, after) = choose|before: Seq<char>, after: Seq<char>|
            hay == #[trigger] (before + needle + after);
        let at = before.len() as int;
        assert(hay.subrange(at, at + needle.len()) =~= needle);
        assert(occurs_at(hay, needle, at));
    }
}

/// Of the characters with one byte the space and those from tab to carriage return are white
/// space, and no other; of the rest only the breaks, the wide and the narrow spaces are.
pub proof fn law_white_space_characters(c: char)
    ensures
        (c as int) < 128 ==> (white_space(c) <==> c as int == 32 || 9 <= c as int <= 13),
        (c as int) >= 128 ==> (white_space(c) <==> c as int == 0x85 || c as int == 0xa0 || c as int
            == 0x1680 || 0x2000 <= c as int <= 0x200a || c as int == 0x2028 || c as int == 0x2029
            || c as int == 0x202f || c as int == 0x205f || c as int == 0x3000),
{
}

/// Whether a text is white space throughout.
pub open spec fn is_blank(s: Seq<char>) -> bool {
    forall|i: int| 0 <= i < s.len() ==> white_space(#[trigger] s[i])
}

proof fn lemma_trim_start(s: Seq<char>) -> (cut: Seq<char>)
    ensures
        s == cut + trim_start(s),
        is_blank(cut),
        trim_start(s).len() > 0 ==> !white_space(trim_start(s)[0]),
    decreases s.len(),
{
    if s.len() > 0 && white_space(s[0]) {
        let rest = lemma_trim_start(s.drop_first());
        let cut = seq![s[0]] + rest;
        assert(s =~= seq![s[0]] + s.drop_first());
        assert(trim_start(s) == trim_start(s.drop_first()));
        assert(s =~= cut + trim_start(s));
        assert forall|i: int| 0 <= i < cut.len() implies white_space(#[trigger] cut[i]) by {
            if i > 0 {
                assert(cut[i] == rest[i - 1]);
            }
        }
        cut
    } else {
        assert(s =~= Seq::<char>::empty() + s);
        Seq::empty()
    }
}

proof fn lemma_trim_end(s: Seq<char>) -> (cut: Seq<char>)
    ensures
        s == trim_end(s) + cut,
        is_blank(cut),
        trim_end(s).len() > 0 ==> !white_space(trim_end(s).last()),
        trim_end(s).len() > 0 ==> trim_end(s)[0] == s[0],
    decreases s.len(),
{
    if s.len() > 0 && white_space(s.last()) {
        let rest = lemma_trim_end(s.drop_last());
        let cut = rest + seq![s.last()];
        assert(s =~= s.drop_last() + seq![s.last()]);
        assert(trim_end(s) == trim_end(s.drop_last()));
        assert(s =~= trim_end(s) + cut);
        assert forall|i: int| 0 <= i < cut.len() implies white_space(#[trigger] cut[i]) by {
            if i < rest.len() {
                assert(cut[i] == rest[i]);
            }
        }
        cut
    } else {
        assert(s =~= s + Seq::<char>::empty());
        Seq::empty()
    }
}

/// Trimming takes white space away from both ends, all of it, and nothing else.
pub proof fn law_trim_cuts_white_space_only(s: Seq<char>)
    ensures
        exists|before: Seq<char>, after: Seq<char>|
            is_blank(before) && is_blank(after) && s == #[trigger] (before + trimmed(s) + after),
        trimmed(s).len() > 0 ==> !white_space(trimmed(s)[0]) && !white_space(trimmed(s).last()),
{
    let before = lemma_trim_start(s);
    let after = lemma_trim_end(trim_start(s));
    assert(s =~= before + trimmed(s) + after);
}

/// White space around a text that has none at its ends makes no difference.
pub proof fn law_trim_ignores_what_is_around(
    before: Seq<char>,
    body: Seq<char>,
    after: Seq<char>,
)
    requires
        is_blank(before),
        is_blank(after),
        body.len() > 0 ==> !white_space(body[0]) && !white_space(body.last()),
    ensures
        trimmed(before + body + after) == body,
    decreases before.len() + after.len(),
{
    let s = before + body + after;
    if before.len() > 0 {
        let rest = before.drop_first();
        assert(s[0] == before[0]);
        assert(s.drop_first() =~= rest + body + after);
        assert forall|i: int| 0 <= i < rest.len() implies white_space(#[trigger] rest[i]) by {
            assert(rest[i] == before[i + 1]);
        }
        law_trim_ignores_what_is_around(rest, body, after);
    } else if body.len() > 0 {
        assert(s[0] == body[0]);
        assert(trim_start(s) == s);
        lemma_trim_end_of(body, after);
        assert(s =~= body + after);
    } else {
        assert(s =~= after);
        lemma_blank_trims_to_nothing(after);
    }
}

proof fn lemma_trim_end_of(body: Seq<char>, after: Seq<char>)
    requires
        is_blank(after),
        body.len() > 0,
        !white_space(body.last()),
    ensures
        trim_end(body + after) == body,
    decreases after.len(),
{
    let s = body + after;
    if after.len() > 0 {
        assert(s.last() == after.last());
        assert(s.drop_last() =~= body + after.drop_last());
        lemma_trim_end_of(body, after.drop_last());
    } else {
        assert(s =~= body);
    }
}

proof fn lemma_blank_trims_to_nothing(s: Seq<char>)
    requires
        is_blank(s),
    ensures
        trimmed(s) == Seq::<char>::empty(),
{
    let cut = lemma_trim_start(s);
    if trim_start(s).len() > 0 {
        assert(s[cut.len() as int] == trim_start(s)[0]);
    }
    assert(trim_start(s) =~= Seq::<char>::empty());
}

/// A text is blank exactly where trimming leaves nothing of it.
pub proof fn law_blank_means_nothing_left(s: Seq<char>)
    ensures
        trimmed(s).len() == 0 <==> is_blank(s),
{
    if is_blank(s) {
        lemma_blank_trims_to_nothing(s);
    } else {
        let k = choose|k: int| 0 <= k < s.len() && !white_space(#[trigger] s[k]);
        let before = lemma_trim_start(s);
        let after = lemma_trim_end(trim_start(s));
        if trimmed(s).len() == 0 {
            assert(s =~= before + after);
            if k < before.len() {
                assert(s[k] == before[k]);
            } else {
                assert(s[k] == after[k - before.len()]);
            }
        }
    }
}

/// A line ends in a line feed, with or without a carriage return before it; what follows is
/// split as if it stood alone.
pub proof fn law_lines_end_in_line_feeds(line: Seq<char>, rest: Seq<char>)
    requires
        !line.contains('\n'),
    ensures
        line.len() == 0 || line.last() != '\r' ==> lines_of(line + seq!['\n'] + rest) == seq![line]
            + lines_of(rest),
        lines_of(line + seq!['\r', '\n'] + rest) == seq![line] + lines_of(rest),
{
    let s = line + seq!['\n'] + rest;
    let n = line.len() as int;
    assert forall|k: int| 0 <= k < n implies s[k] != '\n' by {
        assert(s[k] == line[k]);
    }
    assert(s[n] == '\n');
    lemma_find_char(s, '\n', n);
    assert(s.take(n) =~= line);
    assert(s.skip(n + 1) =~= rest);
    let t = line + seq!['\r', '\n'] + rest;
    assert forall|k: int| 0 <= k < n + 1 implies t[k] != '\n' by {
        if k < n {
            assert(t[k] == line[k]);
        }
    }
    assert(t[n + 1] == '\n');
    lemma_find_char(t, '\n', n + 1);
    assert(t.take(n + 1) =~= line.push('\r'));
    assert(line.push('\r').drop_last() =~= line);
    assert(strip_cr(t.take(n + 1)) == line);
    assert(t.skip(n + 2) =~= rest);
}

/// The last line may lack its ending; an empty text has no line.
pub proof fn law_last_line_needs_no_ending(line: Seq<char>)
    requires
        !line.contains('\n'),
    ensures
        line.len() > 0 ==> lines_of(line) == seq![line],
        line.len() == 0 ==> lines_of(line) == Seq::<Seq<char>>::empty(),
{
    assert forall|k: int| 0 <= k < line.len() implies line[k] != '\n' by {}
    lemma_find_char(line, '\n', line.len() as int);
}

/// Cutting a text keeps the longest beginning of it that takes no more than the bytes allowed.
pub proof fn law_cut_keeps_what_fits(s: Seq<char>, max: nat)
    ensures
        ({
            let kept = fitting_prefix(s, max);
            &&& kept.is_prefix_of(s)
            &&& encode_utf8(kept).len() <= max
            &&& forall|k: int|
                kept.len() < k <= s.len() ==> #[trigger] encode_utf8(s.take(k)).len() > max
        }),
    decreases s.len(),
{
    let kept = fitting_prefix(s, max);
    if encode_utf8(s).len() <= max || s.len() == 0 {
        assert(s.take(s.len() as int) =~= s);
        if s.len() == 0 {
            assert(s =~= Seq::<char>::empty());
            assert(encode_utf8(s).len() == 0);
        }
    } else {
        let shorter = s.drop_last();
        law_cut_keeps_what_fits(shorter, max);
        assert(kept.is_prefix_of(s)) by {
            assert(s.subrange(0, kept.len() as int) =~= shorter.subrange(0, kept.len() as int));
        }
        assert forall|k: int| kept.len() < k <= s.len() implies #[trigger] encode_utf8(
            s.take(k),
        ).len() > max by {
            if k == s.len() {
                assert(s.take(k) =~= s);
            } else {
                assert(s.take(k) =~= shorter.take(k));
            }
        }
    }
}

} // verus!
