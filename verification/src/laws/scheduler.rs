//! Schedulers: what a name stands for, and what follows from it.

use vstd::prelude::*;

use crate::laws::text::{is_blank, law_trim_ignores_what_is_around};
use crate::platform::linux::scheduler::{detected, scheduler_named, SchedulerView, Strategy};
use crate::text::{lowercase, trimmed, white_space};

verus! {

/// Whether a name begins, in lower case, with this word, by itself or behind `scx_`.
pub open spec fn is_called(name: Seq<char>, word: Seq<char>) -> bool {
    exists|rest: Seq<char>|
        lowercase(name) == #[trigger] (word + rest) || lowercase(name) == seq![
            's',
            'c',
            'x',
            '_',
        ] + word + rest
}

proof fn lemma_is_called(name: Seq<char>, word: Seq<char>, long: Seq<char>)
    requires
        long == seq!['s', 'c', 'x', '_'] + word,
    ensures
        is_called(name, word) <==> word.is_prefix_of(lowercase(name)) || long.is_prefix_of(
            lowercase(name),
        ),
{
    let lc = lowercase(name);
    if word.is_prefix_of(lc) {
        let rest = lc.skip(word.len() as int);
        assert(lc =~= word + rest);
    }
    if long.is_prefix_of(lc) {
        let rest = lc.skip(long.len() as int);
        assert(lc =~= long + rest);
        let again = word + rest;
        assert(lc == seq!['s', 'c', 'x', '_'] + word + rest);
    }
    if is_called(name, word) {
        let rest = choose|rest: Seq<char>|
            lc == #[trigger] (word + rest) || lc == seq!['s', 'c', 'x', '_'] + word + rest;
        if lc == word + rest {
            assert(lc.subrange(0, word.len() as int) =~= word);
        } else {
            assert(lc.subrange(0, long.len() as int) =~= long);
        }
    }
}

/// A name that begins with a known scheduler's, by itself or behind `scx_` and in any case of
/// letters, stands for that scheduler and for no other; any other name is kept as unknown.
pub proof fn law_names_stand_for_their_scheduler(name: Seq<char>)
    ensures
        scheduler_named(name) is Lavd <==> is_called(name, seq!['l', 'a', 'v', 'd']),
        scheduler_named(name) is Layered <==> is_called(
            name,
            seq!['l', 'a', 'y', 'e', 'r', 'e', 'd'],
        ),
        scheduler_named(name) is Rusty <==> is_called(name, seq!['r', 'u', 's', 't', 'y']),
        scheduler_named(name) is Bpfland <==> is_called(
            name,
            seq!['b', 'p', 'f', 'l', 'a', 'n', 'd'],
        ),
        scheduler_named(name) !is NoScheduler,
        scheduler_named(name) matches SchedulerView::Unknown(kept) ==> kept == name,
{
    reveal_strlit("scx_lavd");
    reveal_strlit("lavd");
    reveal_strlit("scx_layered");
    reveal_strlit("layered");
    reveal_strlit("scx_rusty");
    reveal_strlit("rusty");
    reveal_strlit("scx_bpfland");
    reveal_strlit("bpfland");
    let scx = seq!['s', 'c', 'x', '_'];
    let lavd = seq!['l', 'a', 'v', 'd'];
    let layered = seq!['l', 'a', 'y', 'e', 'r', 'e', 'd'];
    let rusty = seq!['r', 'u', 's', 't', 'y'];
    let bpfland = seq!['b', 'p', 'f', 'l', 'a', 'n', 'd'];
    assert("lavd"@ =~= lavd);
    assert("layered"@ =~= layered);
    assert("rusty"@ =~= rusty);
    assert("bpfland"@ =~= bpfland);
    assert("scx_lavd"@ =~= scx + lavd);
    assert("scx_layered"@ =~= scx + layered);
    assert("scx_rusty"@ =~= scx + rusty);
    assert("scx_bpfland"@ =~= scx + bpfland);
    lemma_is_called(name, lavd, scx + lavd);
    lemma_is_called(name, layered, scx + layered);
    lemma_is_called(name, rusty, scx + rusty);
    lemma_is_called(name, bpfland, scx + bpfland);
    let lc = lowercase(name);
    lemma_prefix_chars(lc, lavd);
    lemma_prefix_chars(lc, layered);
    lemma_prefix_chars(lc, rusty);
    lemma_prefix_chars(lc, bpfland);
    lemma_prefix_chars(lc, scx + lavd);
    lemma_prefix_chars(lc, scx + layered);
    lemma_prefix_chars(lc, scx + rusty);
    lemma_prefix_chars(lc, scx + bpfland);
    assert((scx + lavd)[0] == 's' && (scx + lavd)[4] == 'l' && (scx + lavd)[6] == 'v');
    assert((scx + layered)[0] == 's' && (scx + layered)[4] == 'l' && (scx + layered)[6] == 'y');
    assert((scx + rusty)[0] == 's' && (scx + rusty)[4] == 'r');
    assert((scx + bpfland)[0] == 's' && (scx + bpfland)[4] == 'b');
}

proof fn lemma_prefix_chars(s: Seq<char>, p: Seq<char>)
    ensures
        p.is_prefix_of(s) ==> p.len() <= s.len() && forall|i: int|
            0 <= i < p.len() ==> s[i] == #[trigger] p[i],
{
    if p.is_prefix_of(s) {
        assert forall|i: int| 0 <= i < p.len() implies s[i] == #[trigger] p[i] by {
            assert(s.subrange(0, p.len() as int)[i] == s[i]);
        }
    }
}

/// A scheduler is detected exactly where the state reads `enabled`, white space around it aside;
/// which one, the name alone decides, white space around it aside.
pub proof fn law_detection_needs_an_enabled_state(
    state: Seq<char>,
    ops: Option<Seq<char>>,
    before: Seq<char>,
    after: Seq<char>,
)
    requires
        is_blank(before),
        is_blank(after),
    ensures
        detected(None, ops) is NoScheduler,
        detected(Some(state), ops) is NoScheduler <==> trimmed(state) != seq![
            'e',
            'n',
            'a',
            'b',
            'l',
            'e',
            'd',
        ],
        ops is Some && trimmed(state) == seq!['e', 'n', 'a', 'b', 'l', 'e', 'd'] ==> detected(
            Some(state),
            ops,
        ) == scheduler_named(trimmed(ops->0)),
        ops is None && trimmed(state) == seq!['e', 'n', 'a', 'b', 'l', 'e', 'd'] ==> detected(
            Some(state),
            ops,
        ) == SchedulerView::Unknown("unknown"@),
        detected(Some(before + seq!['e', 'n', 'a', 'b', 'l', 'e', 'd'] + after), ops)
            !is NoScheduler,
{
    reveal_strlit("enabled");
    let word = seq!['e', 'n', 'a', 'b', 'l', 'e', 'd'];
    assert("enabled"@ =~= word);
    assert(!white_space('e') && !white_space('d'));
    assert(word[0] == 'e' && word.last() == 'd');
    law_trim_ignores_what_is_around(before, word, after);
    if ops is Some {
        law_names_stand_for_their_scheduler(trimmed(ops->0));
    }
}

/// The strategy follows from the scheduler: layers for the layered one, basic hints where there is
/// none, and niceness and weight for every other.
pub proof fn law_strategy_follows_the_scheduler(scheduler: SchedulerView)
    ensures
        scheduler.strategy() == Strategy::LayeredJson <==> scheduler is Layered,
        scheduler.strategy() == Strategy::BasicHints <==> scheduler is NoScheduler,
        scheduler.strategy() == Strategy::NiceAndWeight <==> scheduler is Lavd || scheduler is Rusty
            || scheduler is Bpfland || scheduler is Unknown,
{
}

/// An unknown scheduler is shown by its name; the known ones by theirs, behind `scx_`.
pub proof fn law_schedulers_are_shown_by_name(name: Seq<char>)
    ensures
        SchedulerView::Unknown(name).display() == name,
        SchedulerView::Lavd.display() == "scx_lavd"@,
        SchedulerView::Layered.display() == "scx_layered"@,
        SchedulerView::Rusty.display() == "scx_rusty"@,
        SchedulerView::Bpfland.display() == "scx_bpfland"@,
        SchedulerView::NoScheduler.display() == "none (CFS)"@,
{
}

} // verus!
