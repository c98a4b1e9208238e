//! Resolving: what a rule of a file becomes, when it is refused, and what is told about it.

use vstd::prelude::*;

use crate::laws::text::{law_search_finds_what_is_there, occurs_in};
use crate::rules::matcher::{matches_rule, ContextView};
use crate::rules::pattern::pattern_texts;
use crate::rules::types::{ResolvedRuleView, RuleSetView, RuleView, TypeDefView};
use crate::rules::validator::{
    about, acceptable_cgroup, cgroup_findings, findings_for, findings_up_to, ionice_findings,
    is_duplicate, is_refused, nice_findings, oom_findings, own_findings, resolution,
    semantic_findings, weight_findings, FindingView,
};
use crate::text::lowercase;

verus! {

/// What a rule selects by is its own: its name, the lower case of that name, its needle and what
/// its pattern accepts, whatever the types hold.
pub proof fn law_selector_is_the_rules_own(
    types: Map<Seq<char>, TypeDefView>,
    rule: RuleView,
)
    ensures
        resolution(types, rule).name == rule.name,
        resolution(types, rule).name_lowercase == lowercase(rule.name),
        resolution(types, rule).cmdline_contains == rule.cmdline_contains,
        rule.exe_pattern is None ==> resolution(types, rule).exe_pattern is None,
        rule.exe_pattern is Some && pattern_texts(rule.exe_pattern->0) is Ok ==> resolution(
            types,
            rule,
        ).exe_pattern == Some(pattern_texts(rule.exe_pattern->0)->Ok_0),
{
}

/// A resolved rule matches every process whose `comm`, or whose executable, bears the rule's name
/// in any case of letters, wherever the needle and the pattern that the rule has are met.
pub proof fn law_resolved_rule_matches_its_name(
    types: Map<Seq<char>, TypeDefView>,
    rule: RuleView,
    ctx: ContextView,
)
    requires
        !is_refused(types, rule),
        ctx.comm_lowercase == lowercase(rule.name) || ctx.exe_name_lowercase == Some(
            lowercase(rule.name),
        ),
        rule.cmdline_contains is Some ==> ctx.cmdline is Some && occurs_in(
            rule.cmdline_contains->0,
            ctx.cmdline->0,
        ),
        rule.exe_pattern is Some ==> ctx.exe is Some && pattern_texts(
            rule.exe_pattern->0,
        )->Ok_0.contains(ctx.exe->0),
    ensures
        matches_rule(resolution(types, rule), ctx),
{
    if rule.cmdline_contains is Some {
        law_search_finds_what_is_there(ctx.cmdline->0, rule.cmdline_contains->0);
    }
}

/// What a rule sets comes through as it is written; what it leaves open comes from its type, and
/// from nowhere else.
pub proof fn law_effects_come_from_the_rule_then_the_type(
    types: Map<Seq<char>, TypeDefView>,
    rule: RuleView,
)
    ensures
        ({
            let r = resolution(types, rule);
            &&& rule.nice is Some ==> r.nice == rule.nice
            &&& rule.ioclass is Some ==> r.ioclass == rule.ioclass
            &&& rule.ionice is Some ==> r.ionice == rule.ionice
            &&& rule.oom_score_adj is Some ==> r.oom_score_adj == rule.oom_score_adj
            &&& rule.cgroup is Some ==> r.cgroup == rule.cgroup
            &&& rule.cgroup_weight is Some ==> r.cgroup_weight == rule.cgroup_weight
            &&& rule.type_ref is None ==> {
                &&& r.nice == rule.nice
                &&& r.ioclass == rule.ioclass
                &&& r.ionice == rule.ionice
                &&& r.oom_score_adj == rule.oom_score_adj
                &&& r.cgroup == rule.cgroup
                &&& r.cgroup_weight == rule.cgroup_weight
            }
            &&& rule.type_ref is Some ==> {
                let t = types[rule.type_ref->0];
                &&& rule.nice is None ==> r.nice == t.nice
                &&& rule.ioclass is None ==> r.ioclass == t.ioclass
                &&& rule.ionice is None ==> r.ionice == t.ionice
                &&& rule.oom_score_adj is None ==> r.oom_score_adj == t.oom_score_adj
                &&& rule.cgroup is None ==> r.cgroup == t.cgroup
                &&& rule.cgroup_weight is None ==> r.cgroup_weight == t.cgroup_weight
            }
        }),
{
}

/// The cgroup that a rule asks for, by itself or by its type.
pub open spec fn asked_cgroup(types: Map<Seq<char>, TypeDefView>, rule: RuleView) -> Option<
    Seq<char>,
> {
    if rule.cgroup is Some {
        rule.cgroup
    } else if rule.type_ref is Some {
        types[rule.type_ref->0].cgroup
    } else {
        None
    }
}

/// A rule is refused exactly where its type is not defined, its pattern does not compile, or the
/// cgroup that it asks for is empty, absolute or holds two dots in a row.
pub proof fn law_refusals_are_exact(types: Map<Seq<char>, TypeDefView>, rule: RuleView)
    ensures
        is_refused(types, rule) <==> {
            ||| rule.type_ref is Some && !types.contains_key(rule.type_ref->0)
            ||| rule.exe_pattern is Some && pattern_texts(rule.exe_pattern->0) is Err
            ||| asked_cgroup(types, rule) is Some && {
                let path = asked_cgroup(types, rule)->0;
                ||| path.len() == 0
                ||| path[0] == '/'
                ||| occurs_in(seq!['.', '.'], path)
            }
        },
{
    reveal_strlit("..");
    assert(".."@ =~= seq!['.', '.']);
    if let Some(path) = asked_cgroup(types, rule) {
        law_search_finds_what_is_there(path, seq!['.', '.']);
    }
}

/// A rule whose type or pattern is bad is told about by that alone, with what is wrong.
pub proof fn law_structural_findings_stand_alone(
    types: Map<Seq<char>, TypeDefView>,
    rule: RuleView,
)
    ensures
        rule.type_ref is Some && !types.contains_key(rule.type_ref->0) ==> own_findings(types, rule)
            == seq![FindingView::MissingType(rule.type_ref->0)],
        (rule.type_ref is Some ==> types.contains_key(rule.type_ref->0)) && rule.exe_pattern is Some
            && pattern_texts(rule.exe_pattern->0) is Err ==> own_findings(types, rule) == seq![
            FindingView::InvalidPattern {
                pattern: rule.exe_pattern->0,
                reason: pattern_texts(rule.exe_pattern->0)->Err_0,
            },
        ],
        (rule.type_ref is Some ==> types.contains_key(rule.type_ref->0)) && (rule.exe_pattern is Some
            ==> pattern_texts(rule.exe_pattern->0) is Ok) ==> own_findings(types, rule)
            == semantic_findings(resolution(types, rule)),
{
}

/// Whether a finding is true of the values of a resolved rule.
pub open spec fn is_true_of(finding: FindingView, r: ResolvedRuleView) -> bool {
    match finding {
        FindingView::NiceOutOfBounds(n) => r.nice == Some(n) && (n < -20 || n > 19),
        FindingView::IoniceWithoutClass => r.ionice is Some && r.ioclass is None,
        FindingView::IoniceOutOfBounds(n) => r.ionice == Some(n) && n > 7,
        FindingView::OomOutOfBounds(n) => r.oom_score_adj == Some(n) && (n < -1000 || n > 1000),
        FindingView::WeightWithoutCgroup => r.cgroup_weight is Some && r.cgroup is None,
        FindingView::WeightOutOfBounds(n) => r.cgroup_weight == Some(n) && (n < 1 || n > 10_000),
        FindingView::InvalidCgroup(path) => r.cgroup == Some(path) && (path.len() == 0 || path[0]
            == '/' || occurs_in(seq!['.', '.'], path)),
        FindingView::NoEffect => r.nice is None && r.ioclass is None && r.oom_score_adj is None
            && r.cgroup is None,
        _ => false,
    }
}

/// Only a type that is not defined, a pattern that does not compile and a cgroup that is not
/// accepted are errors; every other finding is a warning.
pub proof fn law_errors_are_three(finding: FindingView)
    ensures
        finding.is_error() <==> finding is MissingType || finding is InvalidPattern || finding
            is InvalidCgroup,
{
}

proof fn lemma_contains_concat(a: Seq<FindingView>, b: Seq<FindingView>, f: FindingView)
    ensures
        (a + b).contains(f) <==> a.contains(f) || b.contains(f),
{
    if a.contains(f) {
        let i = choose|i: int| 0 <= i < a.len() && a[i] == f;
        assert((a + b)[i] == f);
    }
    if b.contains(f) {
        let i = choose|i: int| 0 <= i < b.len() && b[i] == f;
        assert((a + b)[a.len() + i] == f);
    }
    if (a + b).contains(f) {
        let i = choose|i: int| 0 <= i < (a + b).len() && (a + b)[i] == f;
        if i < a.len() {
            assert(a[i] == f);
        } else {
            assert(b[i - a.len()] == f);
        }
    }
}

proof fn lemma_contains_when(condition: bool, finding: FindingView, f: FindingView)
    ensures
        crate::rules::validator::when(condition, finding).contains(f) <==> condition && f
            == finding,
{
    if condition {
        assert(seq![finding][0] == finding);
    }
}

/// What is told of the values of a resolved rule is true of them, and everything that is true is
/// told.
pub proof fn law_findings_are_exact(r: ResolvedRuleView, finding: FindingView)
    ensures
        semantic_findings(r).contains(finding) <==> is_true_of(finding, r),
{
    reveal_strlit("..");
    assert(".."@ =~= seq!['.', '.']);
    let n = nice_findings(r);
    let i = ionice_findings(r);
    let o = oom_findings(r);
    let w = weight_findings(r);
    let c = cgroup_findings(r);
    let last = crate::rules::validator::when(!r.has_effects(), FindingView::NoEffect);
    lemma_contains_concat(n, i, finding);
    lemma_contains_concat(n + i, o, finding);
    lemma_contains_concat(n + i + o, w, finding);
    lemma_contains_concat(n + i + o + w, c, finding);
    lemma_contains_concat(n + i + o + w + c, last, finding);
    lemma_contains_when(!r.has_effects(), FindingView::NoEffect, finding);
    if let Some(v) = r.nice {
        lemma_contains_when(!(-20 <= v <= 19), FindingView::NiceOutOfBounds(v), finding);
    }
    if let Some(v) = r.ionice {
        let a = crate::rules::validator::when(r.ioclass is None, FindingView::IoniceWithoutClass);
        let b = crate::rules::validator::when(v > 7, FindingView::IoniceOutOfBounds(v));
        lemma_contains_concat(a, b, finding);
        lemma_contains_when(r.ioclass is None, FindingView::IoniceWithoutClass, finding);
        lemma_contains_when(v > 7, FindingView::IoniceOutOfBounds(v), finding);
    }
    if let Some(v) = r.oom_score_adj {
        lemma_contains_when(!(-1000 <= v <= 1000), FindingView::OomOutOfBounds(v), finding);
    }
    if let Some(v) = r.cgroup_weight {
        let a = crate::rules::validator::when(r.cgroup is None, FindingView::WeightWithoutCgroup);
        let b = crate::rules::validator::when(
            !(1 <= v <= 10_000),
            FindingView::WeightOutOfBounds(v),
        );
        lemma_contains_concat(a, b, finding);
        lemma_contains_when(r.cgroup is None, FindingView::WeightWithoutCgroup, finding);
        lemma_contains_when(!(1 <= v <= 10_000), FindingView::WeightOutOfBounds(v), finding);
    }
    if let Some(path) = r.cgroup {
        law_search_finds_what_is_there(path, seq!['.', '.']);
        lemma_contains_when(
            !acceptable_cgroup(path),
            FindingView::InvalidCgroup(path),
            finding,
        );
    }
}

/// A rule is told to be shadowed exactly where an earlier one has its name, its pattern and its
/// needle.
pub proof fn law_shadowing_is_told(set: RuleSetView, i: int)
    requires
        0 <= i < set.rules.len(),
    ensures
        findings_for(set, i).contains(FindingView::DuplicateSelector) <==> exists|j: int|
            0 <= j < i && (#[trigger] set.rules[j]).name == set.rules[i].name
                && set.rules[j].exe_pattern == set.rules[i].exe_pattern
                && set.rules[j].cmdline_contains == set.rules[i].cmdline_contains,
{
    let own = own_findings(set.types, set.rules[i]);
    let shadow = crate::rules::validator::when(
        is_duplicate(set.rules, i),
        FindingView::DuplicateSelector,
    );
    lemma_contains_concat(shadow, own, FindingView::DuplicateSelector);
    lemma_contains_when(
        is_duplicate(set.rules, i),
        FindingView::DuplicateSelector,
        FindingView::DuplicateSelector,
    );
    law_structural_findings_stand_alone(set.types, set.rules[i]);
    law_findings_are_exact(
        resolution(set.types, set.rules[i]),
        FindingView::DuplicateSelector,
    );
    if own.contains(FindingView::DuplicateSelector) {
        let k = choose|k: int| 0 <= k < own.len() && own[k] == FindingView::DuplicateSelector;
        assert(own[k] == FindingView::DuplicateSelector);
    }
}

/// The report holds what is told of each rule, under the position of that rule, and nothing else.
pub proof fn law_report_tells_of_every_rule(
    set: RuleSetView,
    n: int,
    i: int,
    finding: FindingView,
)
    requires
        0 <= n <= set.rules.len(),
    ensures
        findings_up_to(set, n).contains((i, finding)) <==> 0 <= i < n && findings_for(
            set,
            i,
        ).contains(finding),
    decreases n,
{
    if n > 0 {
        law_report_tells_of_every_rule(set, n - 1, i, finding);
        let before = findings_up_to(set, n - 1);
        let own = findings_for(set, n - 1);
        let added = about(n - 1, own);
        let all = findings_up_to(set, n);
        if all.contains((i, finding)) {
            let k = choose|k: int| 0 <= k < all.len() && all[k] == (i, finding);
            if k < before.len() {
                assert(before[k] == (i, finding));
            } else {
                assert(added[k - before.len()] == (i, finding));
                assert(own[k - before.len()] == finding);
            }
        }
        if before.contains((i, finding)) {
            let k = choose|k: int| 0 <= k < before.len() && before[k] == (i, finding);
            assert(all[k] == (i, finding));
        }
        if i == n - 1 && own.contains(finding) {
            let k = choose|k: int| 0 <= k < own.len() && own[k] == finding;
            assert(added[k] == (i, finding));
            assert(all[before.len() + k] == (i, finding));
        }
    }
}

} // verus!
