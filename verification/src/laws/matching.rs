//! Matching: what a rule asks of a process, and what a process's data comes from.

use vstd::prelude::*;
use vstd::utf8::encode_utf8;

use crate::laws::text::{law_search_finds_what_is_there, occurs_in};
use crate::rules::matcher::{
    after_last, context_named, context_of, explanation, first_match, joined,
    law_first_match_wins, matches_rule, ContextView, ProcSnapshot,
};
use crate::rules::types::ResolvedRuleView;
use crate::text::{lowercase, texts};

verus! {

/// Whatever its name, a rule with a needle matches only a process whose command line is known and
/// holds the needle, and a rule with a pattern only one whose executable path is known and
/// accepted by the pattern.
pub proof fn law_match_means_predicates_hold(rule: ResolvedRuleView, ctx: ContextView)
    requires
        matches_rule(rule, ctx),
    ensures
        rule.cmdline_contains is Some ==> ctx.cmdline is Some && occurs_in(
            rule.cmdline_contains->0,
            ctx.cmdline->0,
        ),
        rule.exe_pattern is Some ==> ctx.exe is Some && rule.exe_pattern->0.contains(ctx.exe->0),
{
    if rule.cmdline_contains is Some {
        law_search_finds_what_is_there(ctx.cmdline->0, rule.cmdline_contains->0);
    }
}

/// A rule with a name matches only a process that bears it: as its `comm`, as the name of its
/// executable, or as a longer name of which the `comm`, filling the kernel's limit of fifteen
/// bytes, is the beginning.
pub proof fn law_match_means_the_name_fits(rule: ResolvedRuleView, ctx: ContextView)
    requires
        matches_rule(rule, ctx),
        rule.name.len() > 0,
    ensures
        ctx.comm_lowercase == rule.name_lowercase || ctx.exe_name_lowercase == Some(
            rule.name_lowercase,
        ) || (encode_utf8(ctx.comm).len() >= 15 && exists|rest: Seq<char>|
            rule.name_lowercase == #[trigger] (ctx.comm_lowercase + rest)),
{
    if encode_utf8(ctx.comm).len() >= 15 && ctx.comm_lowercase.is_prefix_of(rule.name_lowercase) {
        let n = ctx.comm_lowercase.len() as int;
        assert(rule.name_lowercase =~= ctx.comm_lowercase + rule.name_lowercase.skip(n));
    }
}

/// Where a rule's predicates hold, each way of bearing its name makes it match, and so does
/// having no name.
pub proof fn law_fitting_name_and_predicates_match(
    rule: ResolvedRuleView,
    ctx: ContextView,
    before: Seq<char>,
    after: Seq<char>,
    rest: Seq<char>,
)
    requires
        rule.cmdline_contains matches Some(needle) ==> ctx.cmdline == Some(
            before + needle + after,
        ),
        rule.exe_pattern matches Some(accepted) ==> ctx.exe is Some && accepted.contains(
            ctx.exe->0,
        ),
        rule.name.len() == 0 || rule.name_lowercase == ctx.comm_lowercase
            || ctx.exe_name_lowercase == Some(rule.name_lowercase) || (encode_utf8(ctx.comm).len()
            >= 15 && rule.name_lowercase == ctx.comm_lowercase + rest),
    ensures
        matches_rule(rule, ctx),
{
    if let Some(needle) = rule.cmdline_contains {
        law_search_finds_what_is_there(ctx.cmdline->0, needle);
    }
    if rule.name_lowercase == ctx.comm_lowercase + rest {
        assert(rule.name_lowercase.subrange(0, ctx.comm_lowercase.len() as int)
            =~= ctx.comm_lowercase);
    }
}

/// Nothing of a process but its names, its executable path and its command line counts.
pub proof fn law_only_named_data_counts(
    rule: ResolvedRuleView,
    same: ResolvedRuleView,
    ctx: ContextView,
    twin: ContextView,
)
    requires
        rule.name.len() == 0 <==> same.name.len() == 0,
        rule.name_lowercase == same.name_lowercase,
        rule.exe_pattern == same.exe_pattern,
        rule.cmdline_contains == same.cmdline_contains,
        ctx.comm == twin.comm,
        ctx.comm_lowercase == twin.comm_lowercase,
        ctx.exe == twin.exe,
        ctx.exe_name_lowercase == twin.exe_name_lowercase,
        ctx.cmdline == twin.cmdline,
    ensures
        matches_rule(rule, ctx) == matches_rule(same, twin),
{
}

/// Adding rules behind the others changes no match that there was; a rule put in front that does
/// not match only moves it on.
pub proof fn law_later_rules_do_not_interfere(
    rules: Seq<ResolvedRuleView>,
    more: Seq<ResolvedRuleView>,
    ctx: ContextView,
)
    ensures
        first_match(rules, ctx) is Some ==> first_match(rules + more, ctx) == first_match(
            rules,
            ctx,
        ),
        first_match(rules, ctx) is None ==> first_match(rules + more, ctx) == (match first_match(
            more,
            ctx,
        ) {
            Some(i) => Some(rules.len() + i),
            None => None,
        }),
    decreases rules.len(),
{
    let all = rules + more;
    if rules.len() == 0 {
        assert(all =~= more);
    } else {
        assert(all[0] == rules[0]);
        assert(all.drop_first() =~= rules.drop_first() + more);
        law_later_rules_do_not_interfere(rules.drop_first(), more, ctx);
    }
}

/// An explanation has one attempt for each rule, by its name, and tells whether it matched.
pub proof fn law_explanation_tells_of_every_rule(
    rules: Seq<ResolvedRuleView>,
    ctx: ContextView,
    k: int,
)
    requires
        0 <= k < rules.len(),
    ensures
        explanation(rules, ctx).attempts.len() == rules.len(),
        explanation(rules, ctx).attempts[k].0 == rules[k].name,
        explanation(rules, ctx).attempts[k].1 ==> (rules[k].cmdline_contains is Some
            ==> ctx.cmdline is Some) && (rules[k].exe_pattern is Some ==> ctx.exe is Some),
        explanation(rules, ctx).attempts[k].1 == matches_rule(rules[k], ctx),
{
}

proof fn lemma_after_last(dir: Seq<char>, name: Seq<char>, c: char)
    requires
        !name.contains(c),
    ensures
        after_last(name, c) == name,
        after_last(dir + seq![c] + name, c) == name,
    decreases name.len(),
{
    let s = dir + seq![c] + name;
    if name.len() == 0 {
        assert(s.last() == c);
        assert(after_last(s, c) =~= name);
        assert(after_last(name, c) =~= name);
    } else {
        let short = name.drop_last();
        assert(name[name.len() - 1] == name.last());
        assert(name.contains(name.last()));
        assert forall|x: char| short.contains(x) implies name.contains(x) by {
            let i = choose|i: int| 0 <= i < short.len() && short[i] == x;
            assert(name[i] == x);
        }
        assert(!short.contains(c));
        lemma_after_last(dir, short, c);
        assert(s.last() == name.last());
        assert(s.drop_last() =~= dir + seq![c] + short);
        assert(short.push(name.last()) =~= name);
    }
}

/// A context holds what was read about the process; its names in lower case come from its `comm`
/// and from the last component of its executable path.
pub proof fn law_context_holds_what_was_read(
    pid: u32,
    s: ProcSnapshot,
    dir: Seq<char>,
    name: Seq<char>,
)
    requires
        !name.contains('/'),
    ensures
        context_of(pid, s).pid == pid,
        context_of(pid, s).ppid == s.ppid as u32,
        context_of(pid, s).start_time_ticks == s.start_time_ticks,
        context_of(pid, s).comm == s.comm@,
        context_of(pid, s).comm_lowercase == lowercase(s.comm@),
        s.exe is None ==> context_of(pid, s).exe is None && context_of(
            pid,
            s,
        ).exe_name_lowercase is None,
        s.exe is Some ==> context_of(pid, s).exe == Some(s.exe->0@),
        s.exe is Some && (s.exe->0@ == dir + seq!['/'] + name || s.exe->0@ == name) ==> context_of(
            pid,
            s,
        ).exe_name_lowercase == Some(lowercase(name)),
{
    lemma_after_last(dir, name, '/');
}

/// The command line is the arguments with a space between each two; without arguments there is
/// none.
pub proof fn law_command_line_joins_the_arguments(pid: u32, s: ProcSnapshot, k: int)
    ensures
        s.args is None || s.args->0@.len() == 0 <==> context_of(pid, s).cmdline is None,
        s.args is Some && s.args->0@.len() == 1 ==> context_of(pid, s).cmdline == Some(
            s.args->0@[0]@,
        ),
        s.args is Some && 1 < k == s.args->0@.len() ==> context_of(pid, s).cmdline == Some(
            joined(texts(s.args->0@).take(k - 1), seq![' ']) + seq![' '] + s.args->0@[k - 1]@,
        ),
{
    reveal_strlit(" ");
    assert(" "@ =~= seq![' ']);
    if s.args is Some && s.args->0@.len() > 1 {
        let parts = texts(s.args->0@);
        assert(parts.drop_last() =~= parts.take(parts.len() - 1));
        assert(parts.last() == s.args->0@[parts.len() - 1]@);
    }
}

/// Joining more arguments adds a space and the argument.
pub proof fn law_joined_grows(parts: Seq<Seq<char>>, last: Seq<char>, sep: Seq<char>)
    ensures
        joined(Seq::<Seq<char>>::empty(), sep) == Seq::<char>::empty(),
        joined(seq![last], sep) == last,
        parts.len() > 0 ==> joined(parts.push(last), sep) == joined(parts, sep) + sep + last,
{
    assert(parts.push(last).drop_last() =~= parts);
}

/// A process of which only the name is known has that name and nothing else.
pub proof fn law_named_context_is_bare(comm: Seq<char>)
    ensures
        context_named(comm).comm == comm,
        context_named(comm).comm_lowercase == lowercase(comm),
        context_named(comm).exe is None,
        context_named(comm).exe_name_lowercase is None,
        context_named(comm).cmdline is None,
{
}

/// A rule that matches and is the only one of its set is found, with all that it sets.
pub proof fn law_single_rule_is_found(rule: ResolvedRuleView, ctx: ContextView)
    ensures
        first_match(seq![rule], ctx) == Some(0int) <==> matches_rule(rule, ctx),
        first_match(Seq::<ResolvedRuleView>::empty(), ctx) is None,
{
    law_first_match_wins(seq![rule], ctx);
    assert(seq![rule][0] == rule);
    if first_match(seq![rule], ctx) is None {
        assert(!matches_rule(seq![rule][0], ctx));
    }
}

} // verus!
