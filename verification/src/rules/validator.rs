//! Resolving rule inheritance, compiling patterns, and judging the result.

use regex::Regex;
use vstd::prelude::*;

use crate::numbers::{decimal, decimal_of};
use crate::rules::matcher::{first_match, law_first_match_wins, matches_rule, ContextView};
use crate::rules::pattern::{compile, pattern_texts, texts_matched_by};
use crate::rules::types::{
    empty_type_def, resolved_views, rule_views, ResolvedRule, ResolvedRuleView, Rule, RuleSet,
    RuleSetView, RuleView, TypeDef, TypeDefView,
};
use crate::text::{contains, copy_text, has_substring, lowercase, same_option, starts_with};

verus! {

/// Something worth telling about a rule.
#[derive(Debug)]
pub enum Finding {
    /// An earlier rule has the same name and match predicates.
    DuplicateSelector,
    /// The rule refers to a type that is not defined.
    MissingType(String),
    /// The executable pattern is no regular expression, for this reason.
    InvalidPattern { pattern: String, reason: String },
    /// The niceness is outside -20 to 19.
    NiceOutOfBounds(i32),
    /// An IO priority is set without an IO class.
    IoniceWithoutClass,
    /// The IO priority is above 7.
    IoniceOutOfBounds(u8),
    /// The memory pressure hint is outside -1000 to 1000.
    OomOutOfBounds(i32),
    /// A weight is set without a cgroup.
    WeightWithoutCgroup,
    /// The weight is outside 1 to 10000.
    WeightOutOfBounds(u64),
    /// The cgroup path is empty, absolute, or holds two dots in a row.
    InvalidCgroup(String),
    /// The rule changes nothing.
    NoEffect,
}

/// What a [`Finding`] tells.
pub enum FindingView {
    DuplicateSelector,
    MissingType(Seq<char>),
    InvalidPattern { pattern: Seq<char>, reason: Seq<char> },
    NiceOutOfBounds(i32),
    IoniceWithoutClass,
    IoniceOutOfBounds(u8),
    OomOutOfBounds(i32),
    WeightWithoutCgroup,
    WeightOutOfBounds(u64),
    InvalidCgroup(Seq<char>),
    NoEffect,
}

impl View for Finding {
    type V = FindingView;

    open spec fn view(&self) -> FindingView {
        match self {
            Finding::DuplicateSelector => FindingView::DuplicateSelector,
            Finding::MissingType(name) => FindingView::MissingType(name@),
            Finding::InvalidPattern { pattern, reason } => FindingView::InvalidPattern {
                pattern: pattern@,
                reason: reason@,
            },
            Finding::NiceOutOfBounds(n) => FindingView::NiceOutOfBounds(*n),
            Finding::IoniceWithoutClass => FindingView::IoniceWithoutClass,
            Finding::IoniceOutOfBounds(n) => FindingView::IoniceOutOfBounds(*n),
            Finding::OomOutOfBounds(n) => FindingView::OomOutOfBounds(*n),
            Finding::WeightWithoutCgroup => FindingView::WeightWithoutCgroup,
            Finding::WeightOutOfBounds(n) => FindingView::WeightOutOfBounds(*n),
            Finding::InvalidCgroup(path) => FindingView::InvalidCgroup(path@),
            Finding::NoEffect => FindingView::NoEffect,
        }
    }
}

impl FindingView {
    /// Whether the finding makes validation fail.
    pub open spec fn is_error(self) -> bool {
        self is MissingType || self is InvalidPattern || self is InvalidCgroup
    }
}

impl Finding {
    /// Whether the finding makes validation fail.
    pub fn is_error(&self) -> (r: bool)
        ensures
            r == self@.is_error(),
    {
        match self {
            Finding::MissingType(_) | Finding::InvalidPattern { .. } | Finding::InvalidCgroup(
                _,
            ) => true,
            _ => false,
        }
    }
}

impl Clone for Finding {
    fn clone(&self) -> (r: Finding)
        ensures
            r@ == self@,
    {
        match self {
            Finding::DuplicateSelector => Finding::DuplicateSelector,
            Finding::MissingType(name) => Finding::MissingType(name.clone()),
            Finding::InvalidPattern { pattern, reason } => Finding::InvalidPattern {
                pattern: pattern.clone(),
                reason: reason.clone(),
            },
            Finding::NiceOutOfBounds(n) => Finding::NiceOutOfBounds(*n),
            Finding::IoniceWithoutClass => Finding::IoniceWithoutClass,
            Finding::IoniceOutOfBounds(n) => Finding::IoniceOutOfBounds(*n),
            Finding::OomOutOfBounds(n) => Finding::OomOutOfBounds(*n),
            Finding::WeightWithoutCgroup => Finding::WeightWithoutCgroup,
            Finding::WeightOutOfBounds(n) => Finding::WeightOutOfBounds(*n),
            Finding::InvalidCgroup(path) => Finding::InvalidCgroup(path.clone()),
            Finding::NoEffect => Finding::NoEffect,
        }
    }
}

/// What each finding of a sequence tells.
pub open spec fn finding_views(findings: Seq<Finding>) -> Seq<FindingView> {
    findings.map_values(|f: Finding| f@)
}

/// The finding, where the condition holds.
pub open spec fn when(condition: bool, finding: FindingView) -> Seq<FindingView> {
    if condition {
        seq![finding]
    } else {
        seq![]
    }
}

/// Whether a rule may name this cgroup: not empty, not absolute, and without two dots in a row.
pub open spec fn acceptable_cgroup(path: Seq<char>) -> bool {
    path.len() > 0 && path[0] != '/' && !has_substring(path, ".."@)
}

/// Whether the cgroup of a resolved rule, where it has one, may be used.
pub open spec fn cgroup_accepted(r: ResolvedRuleView) -> bool {
    r.cgroup matches Some(path) ==> acceptable_cgroup(path)
}

/// What there is to tell about the values of a resolved rule, in the order of the checks.
pub open spec fn semantic_findings(r: ResolvedRuleView) -> Seq<FindingView> {
    nice_findings(r) + ionice_findings(r) + oom_findings(r) + weight_findings(r) + cgroup_findings(
        r,
    ) + when(!r.has_effects(), FindingView::NoEffect)
}

pub open spec fn nice_findings(r: ResolvedRuleView) -> Seq<FindingView> {
    match r.nice {
        Some(n) => when(!(-20 <= n <= 19), FindingView::NiceOutOfBounds(n)),
        None => seq![],
    }
}

pub open spec fn ionice_findings(r: ResolvedRuleView) -> Seq<FindingView> {
    match r.ionice {
        Some(n) => when(r.ioclass is None, FindingView::IoniceWithoutClass) + when(
            n > 7,
            FindingView::IoniceOutOfBounds(n),
        ),
        None => seq![],
    }
}

pub open spec fn oom_findings(r: ResolvedRuleView) -> Seq<FindingView> {
    match r.oom_score_adj {
        Some(n) => when(!(-1000 <= n <= 1000), FindingView::OomOutOfBounds(n)),
        None => seq![],
    }
}

pub open spec fn weight_findings(r: ResolvedRuleView) -> Seq<FindingView> {
    match r.cgroup_weight {
        Some(n) => when(r.cgroup is None, FindingView::WeightWithoutCgroup) + when(
            !(1 <= n <= 10_000),
            FindingView::WeightOutOfBounds(n),
        ),
        None => seq![],
    }
}

pub open spec fn cgroup_findings(r: ResolvedRuleView) -> Seq<FindingView> {
    match r.cgroup {
        Some(path) => when(!acceptable_cgroup(path), FindingView::InvalidCgroup(path)),
        None => seq![],
    }
}

/// Appends a finding.
fn note(findings: &mut Vec<Finding>, finding: Finding)
    ensures
        finding_views(final(findings)@) == finding_views(old(findings)@).push(finding@),
{
    findings.push(finding);
    assert(finding_views(findings@) =~= finding_views(old(findings)@).push(finding@));
}

/// Whether a rule may name this cgroup.
pub fn is_acceptable_cgroup(path: &str) -> (r: bool)
    ensures
        r == acceptable_cgroup(path@),
{
    let absolute = starts_with(path, "/");
    proof {
        reveal_strlit("/");
        if path@.len() > 0 {
            assert("/"@ =~= seq!['/']);
            assert(path@.subrange(0, 1) =~= seq![path@[0]]);
            assert(seq![path@[0]][0] == path@[0]);
        }
    }
    !path.is_empty() && !absolute && !contains(path, "..")
}

/// Notes a niceness out of bounds.
fn check_nice(r: &ResolvedRule, findings: &mut Vec<Finding>)
    ensures
        finding_views(final(findings)@) == finding_views(old(findings)@) + nice_findings(r@),
{
    match r.nice {
        Some(n) => {
            if !(-20 <= n && n <= 19) {
                note(findings, Finding::NiceOutOfBounds(n));
            }
        },
        None => {},
    }
    assert(finding_views(findings@) =~= finding_views(old(findings)@) + nice_findings(r@));
}

/// Notes an IO priority without a class or out of bounds.
fn check_ionice(r: &ResolvedRule, findings: &mut Vec<Finding>)
    ensures
        finding_views(final(findings)@) == finding_views(old(findings)@) + ionice_findings(r@),
{
    match r.ionice {
        Some(n) => {
            if r.ioclass.is_none() {
                note(findings, Finding::IoniceWithoutClass);
            }
            if n > 7 {
                note(findings, Finding::IoniceOutOfBounds(n));
            }
        },
        None => {},
    }
    assert(finding_views(findings@) =~= finding_views(old(findings)@) + ionice_findings(r@));
}

/// Notes a memory pressure hint out of bounds.
fn check_oom(r: &ResolvedRule, findings: &mut Vec<Finding>)
    ensures
        finding_views(final(findings)@) == finding_views(old(findings)@) + oom_findings(r@),
{
    match r.oom_score_adj {
        Some(n) => {
            if !(-1000 <= n && n <= 1000) {
                note(findings, Finding::OomOutOfBounds(n));
            }
        },
        None => {},
    }
    assert(finding_views(findings@) =~= finding_views(old(findings)@) + oom_findings(r@));
}

/// Notes a weight without a cgroup or out of bounds.
fn check_weight(r: &ResolvedRule, findings: &mut Vec<Finding>)
    ensures
        finding_views(final(findings)@) == finding_views(old(findings)@) + weight_findings(r@),
{
    match r.cgroup_weight {
        Some(n) => {
            if r.cgroup.is_none() {
                note(findings, Finding::WeightWithoutCgroup);
            }
            if !(1 <= n && n <= 10_000) {
                note(findings, Finding::WeightOutOfBounds(n));
            }
        },
        None => {},
    }
    assert(finding_views(findings@) =~= finding_views(old(findings)@) + weight_findings(r@));
}

/// Notes a cgroup path that may not be used, and tells whether there was none.
fn check_cgroup(r: &ResolvedRule, findings: &mut Vec<Finding>) -> (ok: bool)
    ensures
        ok == cgroup_accepted(r@),
        finding_views(final(findings)@) == finding_views(old(findings)@) + cgroup_findings(r@),
{
    let mut ok = true;
    match &r.cgroup {
        Some(path) => {
            if !is_acceptable_cgroup(path.as_str()) {
                note(findings, Finding::InvalidCgroup(path.clone()));
                ok = false;
            }
        },
        None => {},
    }
    assert(finding_views(findings@) =~= finding_views(old(findings)@) + cgroup_findings(r@));
    ok
}

proof fn lemma_findings_regroup(
    before: Seq<FindingView>,
    a: Seq<FindingView>,
    b: Seq<FindingView>,
    c: Seq<FindingView>,
    d: Seq<FindingView>,
    e: Seq<FindingView>,
    f: Seq<FindingView>,
)
    ensures
        before + a + b + c + d + e + f == before + (a + b + c + d + e + f),
{
    assert(before + a + b + c + d + e + f =~= before + (a + b + c + d + e + f));
}

/// Check the resolved rule for value ranges and structural consistency, and append the
/// findings.
///
/// Returns `false` only for hard failures such as an invalid cgroup path. Range
/// problems are kept as warnings so users can decide whether a borderline rule
/// is intentional before the validator aborts on the accumulated error count.
pub fn check_rule_semantics(r: &ResolvedRule, findings: &mut Vec<Finding>) -> (ok: bool)
    ensures
        ok == cgroup_accepted(r@),
        finding_views(final(findings)@) == finding_views(old(findings)@) + semantic_findings(r@),
{
    let ghost before = finding_views(findings@);
    check_nice(r, findings);
    check_ionice(r, findings);
    check_oom(r, findings);
    check_weight(r, findings);
    let ok = check_cgroup(r, findings);
    let ghost checked = finding_views(findings@);
    if !r.has_effects() {
        note(findings, Finding::NoEffect);
    }
    proof {
        let last = when(!r@.has_effects(), FindingView::NoEffect);
        assert(finding_views(findings@) =~= checked + last);
        lemma_findings_regroup(
            before,
            nice_findings(r@),
            ionice_findings(r@),
            oom_findings(r@),
            weight_findings(r@),
            cgroup_findings(r@),
            last,
        );
    }
    ok
}

/// The value of a field: the rule's own, or else the type's.
pub open spec fn inherited<T>(own: Option<T>, preset: Option<T>) -> Option<T> {
    match own {
        Some(value) => Some(value),
        None => preset,
    }
}

/// A rule with its type's presets filled in.
pub open spec fn merged(
    rule: RuleView,
    preset: Option<TypeDefView>,
    exe_pattern: Option<Set<Seq<char>>>,
) -> ResolvedRuleView {
    let t = match preset {
        Some(t) => t,
        None => empty_type_def(),
    };
    ResolvedRuleView {
        name: rule.name,
        name_lowercase: lowercase(rule.name),
        nice: inherited(rule.nice, t.nice),
        ioclass: inherited(rule.ioclass, t.ioclass),
        ionice: inherited(rule.ionice, t.ionice),
        oom_score_adj: inherited(rule.oom_score_adj, t.oom_score_adj),
        cgroup: inherited(rule.cgroup, t.cgroup),
        cgroup_weight: inherited(rule.cgroup_weight, t.cgroup_weight),
        exe_pattern,
        cmdline_contains: rule.cmdline_contains,
    }
}

/// What an optional preset holds.
pub open spec fn preset_view(preset: Option<&TypeDef>) -> Option<TypeDefView> {
    match preset {
        Some(t) => Some(t@),
        None => None,
    }
}

/// A rule with its type's presets filled in and its pattern compiled.
pub fn merge_rule(rule: &Rule, preset: Option<&TypeDef>, exe_pattern: Option<Regex>) -> (r:
    ResolvedRule)
    ensures
        r@ == merged(rule@, preset_view(preset), texts_matched_by(exe_pattern)),
{
    let (nice, ioclass, ionice, oom_score_adj, cgroup, cgroup_weight) = match preset {
        Some(t) => (
            t.nice,
            t.ioclass,
            t.ionice,
            t.oom_score_adj,
            copy_text(&t.cgroup),
            t.cgroup_weight,
        ),
        None => (None, None, None, None, None, None),
    };
    ResolvedRule {
        name: rule.name.clone(),
        name_lowercase: rule.name.as_str().to_lowercase(),
        nice: if rule.nice.is_some() {
            rule.nice
        } else {
            nice
        },
        ioclass: if rule.ioclass.is_some() {
            rule.ioclass
        } else {
            ioclass
        },
        ionice: if rule.ionice.is_some() {
            rule.ionice
        } else {
            ionice
        },
        oom_score_adj: if rule.oom_score_adj.is_some() {
            rule.oom_score_adj
        } else {
            oom_score_adj
        },
        cgroup: if rule.cgroup.is_some() {
            copy_text(&rule.cgroup)
        } else {
            cgroup
        },
        cgroup_weight: if rule.cgroup_weight.is_some() {
            rule.cgroup_weight
        } else {
            cgroup_weight
        },
        exe_pattern,
        cmdline_contains: copy_text(&rule.cmdline_contains),
    }
}

/// Whether two rules have the same name and match predicates.
pub open spec fn same_selector(a: RuleView, b: RuleView) -> bool {
    a.name == b.name && a.exe_pattern == b.exe_pattern && a.cmdline_contains == b.cmdline_contains
}

/// Whether an earlier rule has the selector of rule `i`, and so shadows it.
pub open spec fn is_duplicate(rules: Seq<RuleView>, i: int) -> bool {
    exists|j: int| 0 <= j < i && same_selector(#[trigger] rules[j], rules[i])
}

/// Whether the rule refers to a type that is not defined.
pub open spec fn type_missing(types: Map<Seq<char>, TypeDefView>, rule: RuleView) -> bool {
    rule.type_ref matches Some(name) && !types.contains_key(name)
}

/// The presets of the rule's type.
pub open spec fn preset_of(types: Map<Seq<char>, TypeDefView>, rule: RuleView) -> Option<
    TypeDefView,
> {
    match rule.type_ref {
        Some(name) => Some(types[name]),
        None => None,
    }
}

/// Whether the rule's executable pattern is no regular expression.
pub open spec fn pattern_refused(rule: RuleView) -> bool {
    rule.exe_pattern matches Some(pattern) && pattern_texts(pattern) is Err
}

/// The texts that the rule's executable pattern matches.
pub open spec fn pattern_of(rule: RuleView) -> Option<Set<Seq<char>>> {
    match rule.exe_pattern {
        Some(pattern) => match pattern_texts(pattern) {
            Ok(accepted) => Some(accepted),
            Err(_) => None,
        },
        None => None,
    }
}

/// The resolved form of a rule.
pub open spec fn resolution(
    types: Map<Seq<char>, TypeDefView>,
    rule: RuleView,
) -> ResolvedRuleView {
    merged(rule, preset_of(types, rule), pattern_of(rule))
}

/// Whether a rule is refused: its type is missing, its pattern is no regular expression, or its
/// cgroup may not be used.
pub open spec fn is_refused(types: Map<Seq<char>, TypeDefView>, rule: RuleView) -> bool {
    type_missing(types, rule) || pattern_refused(rule) || !cgroup_accepted(resolution(types, rule))
}

/// What there is to tell about a rule by itself.
pub open spec fn own_findings(types: Map<Seq<char>, TypeDefView>, rule: RuleView) -> Seq<
    FindingView,
> {
    if type_missing(types, rule) {
        seq![FindingView::MissingType(rule.type_ref->0)]
    } else if pattern_refused(rule) {
        seq![
            FindingView::InvalidPattern {
                pattern: rule.exe_pattern->0,
                reason: pattern_texts(rule.exe_pattern->0)->Err_0,
            },
        ]
    } else {
        semantic_findings(resolution(types, rule))
    }
}

/// What there is to tell about rule `i` of a rule set.
pub open spec fn findings_for(set: RuleSetView, i: int) -> Seq<FindingView> {
    when(is_duplicate(set.rules, i), FindingView::DuplicateSelector) + own_findings(
        set.types,
        set.rules[i],
    )
}

/// The resolved forms of the first `n` rules, without the refused ones, in order.
pub open spec fn resolved_up_to(set: RuleSetView, n: int) -> Seq<ResolvedRuleView>
    decreases n,
{
    if n <= 0 {
        seq![]
    } else if is_refused(set.types, set.rules[n - 1]) {
        resolved_up_to(set, n - 1)
    } else {
        resolved_up_to(set, n - 1).push(resolution(set.types, set.rules[n - 1]))
    }
}

/// How many of the first `n` rules are refused.
pub open spec fn refused_up_to(set: RuleSetView, n: int) -> int
    decreases n,
{
    if n <= 0 {
        0
    } else if is_refused(set.types, set.rules[n - 1]) {
        refused_up_to(set, n - 1) + 1
    } else {
        refused_up_to(set, n - 1)
    }
}

/// Findings with the position of the rule that they are about.
pub open spec fn about(i: int, findings: Seq<FindingView>) -> Seq<(int, FindingView)> {
    findings.map_values(|f: FindingView| (i, f))
}

/// What there is to tell about the first `n` rules, in order.
pub open spec fn findings_up_to(set: RuleSetView, n: int) -> Seq<(int, FindingView)>
    decreases n,
{
    if n <= 0 {
        seq![]
    } else {
        findings_up_to(set, n - 1) + about(n - 1, findings_for(set, n - 1))
    }
}

/// A finding with the position of the rule that it is about.
#[derive(Debug)]
pub struct Diagnostic {
    pub rule: usize,
    pub finding: Finding,
}

impl View for Diagnostic {
    type V = (int, FindingView);

    open spec fn view(&self) -> (int, FindingView) {
        (self.rule as int, self.finding@)
    }
}

/// What each diagnostic of a sequence tells.
pub open spec fn diagnostic_views(diagnostics: Seq<Diagnostic>) -> Seq<(int, FindingView)> {
    diagnostics.map_values(|d: Diagnostic| d@)
}

/// What validation found.
pub struct ValidationReport {
    /// The resolved forms of the rules that were not refused, in order.
    pub resolved: Vec<ResolvedRule>,
    /// Everything worth telling, in the order of the rules.
    pub diagnostics: Vec<Diagnostic>,
    /// How many rules were refused.
    pub problems: usize,
}

/// How many problems made validation fail.
#[derive(Clone, Copy, Debug, PartialEq, Eq, Structural)]
pub struct ValidationError {
    pub problems: usize,
}

impl ValidationError {
    /// The message for a user.
    pub fn message(&self) -> (s: String)
        ensures
            s@ == decimal_of(self.problems as nat) + " problem(s) found during rule validation"@,
    {
        decimal(self.problems as u64).concat(" problem(s) found during rule validation")
    }
}

impl ValidationReport {
    /// The resolved rules, unless there were problems.
    pub fn into_result(self) -> (r: Result<Vec<ResolvedRule>, ValidationError>)
        ensures
            match r {
                Ok(resolved) => self.problems == 0 && resolved == self.resolved,
                Err(e) => self.problems > 0 && e.problems == self.problems,
            },
    {
        if self.problems == 0 {
            Ok(self.resolved)
        } else {
            Err(ValidationError { problems: self.problems })
        }
    }
}

/// Whether an earlier rule has the selector of rule `i`.
fn has_duplicate(rules: &Vec<Rule>, i: usize) -> (r: bool)
    requires
        i < rules@.len(),
    ensures
        r == is_duplicate(rule_views(rules@), i as int),
{
    let mut j: usize = 0;
    while j < i
        invariant
            j <= i < rules@.len(),
            forall|k: int|
                0 <= k < j ==> !same_selector(
                    #[trigger] rule_views(rules@)[k],
                    rule_views(rules@)[i as int],
                ),
        decreases i - j,
    {
        assert(rule_views(rules@)[j as int] == rules@[j as int]@);
        if rules[j].name == rules[i].name && same_option(
            &rules[j].exe_pattern,
            &rules[i].exe_pattern,
        ) && same_option(&rules[j].cmdline_contains, &rules[i].cmdline_contains) {
            return true;
        }
        j += 1;
    }
    false
}

impl RuleSet {
    /// Resolves one rule and notes what there is to tell about it; `None` where it is refused.
    fn resolve_rule(&self, rule: &Rule, findings: &mut Vec<Finding>) -> (r: Option<ResolvedRule>)
        ensures
            match r {
                Some(resolved) => !is_refused(self@.types, rule@) && resolved@ == resolution(
                    self@.types,
                    rule@,
                ),
                None => is_refused(self@.types, rule@),
            },
            finding_views(final(findings)@) == finding_views(old(findings)@) + own_findings(
                self@.types,
                rule@,
            ),
    {
        let ghost before = finding_views(findings@);
        let preset = match &rule.type_ref {
            Some(name) => match self.types.get(name.as_str()) {
                Some(t) => Some(t),
                None => {
                    note(findings, Finding::MissingType(name.clone()));
                    assert(finding_views(findings@) =~= before + own_findings(self@.types, rule@));
                    return None;
                },
            },
            None => None,
        };
        let exe_pattern = match &rule.exe_pattern {
            Some(pattern) => match compile(pattern.as_str()) {
                Ok(compiled) => Some(compiled),
                Err(reason) => {
                    note(findings, Finding::InvalidPattern { pattern: pattern.clone(), reason });
                    assert(finding_views(findings@) =~= before + own_findings(self@.types, rule@));
                    return None;
                },
            },
            None => None,
        };
        let resolved = merge_rule(rule, preset, exe_pattern);
        if check_rule_semantics(&resolved, findings) {
            Some(resolved)
        } else {
            None
        }
    }

    /// Resolve rule inheritance, compile regexes, and collect everything worth telling.
    ///
    /// Validation is deliberately two-stage: it first detects structural issues
    /// such as missing types or invalid regex syntax, then checks semantic
    /// bounds on the resolved rule values. Non-fatal configuration mistakes are
    /// noted, while hard inconsistencies increment the error count.
    pub fn report(&self) -> (r: ValidationReport)
        ensures
            resolved_views(r.resolved@) == resolved_up_to(self@, self@.rules.len() as int),
            diagnostic_views(r.diagnostics@) == findings_up_to(self@, self@.rules.len() as int),
            r.problems == refused_up_to(self@, self@.rules.len() as int),
    {
        let mut resolved: Vec<ResolvedRule> = Vec::new();
        let mut diagnostics: Vec<Diagnostic> = Vec::new();
        let mut problems: usize = 0;
        let mut i: usize = 0;
        assert(resolved_views(resolved@) =~= resolved_up_to(self@, 0));
        assert(diagnostic_views(diagnostics@) =~= findings_up_to(self@, 0));
        while i < self.rules.len()
            invariant
                i <= self.rules@.len(),
                problems <= i,
                problems == refused_up_to(self@, i as int),
                resolved_views(resolved@) == resolved_up_to(self@, i as int),
                diagnostic_views(diagnostics@) == findings_up_to(self@, i as int),
            decreases self.rules@.len() - i,
        {
            let rule = &self.rules[i];
            assert(self@.rules[i as int] == rule@);
            let mut findings: Vec<Finding> = Vec::new();
            assert(finding_views(findings@) =~= seq![]);
            if has_duplicate(&self.rules, i) {
                note(&mut findings, Finding::DuplicateSelector);
            }
            assert(finding_views(findings@) =~= when(
                is_duplicate(self@.rules, i as int),
                FindingView::DuplicateSelector,
            ));
            let ghost before = resolved@;
            match self.resolve_rule(rule, &mut findings) {
                Some(r) => {
                    resolved.push(r);
                    assert(resolved_views(resolved@) =~= resolved_views(before).push(r@));
                },
                None => {
                    problems += 1;
                },
            }
            append_findings(&mut diagnostics, i, findings);
            i += 1;
        }
        ValidationReport { resolved, diagnostics, problems }
    }

    /// Resolve rule inheritance, compile regexes, and reject invalid entries.
    pub fn validate(&self) -> (r: Result<Vec<ResolvedRule>, ValidationError>)
        ensures
            match r {
                Ok(resolved) => refused_up_to(self@, self@.rules.len() as int) == 0
                    && resolved_views(resolved@) == resolved_up_to(
                    self@,
                    self@.rules.len() as int,
                ),
                Err(e) => e.problems == refused_up_to(self@, self@.rules.len() as int)
                    && e.problems > 0,
            },
    {
        self.report().into_result()
    }
}

/// Appends the findings about rule `i`.
fn append_findings(diagnostics: &mut Vec<Diagnostic>, i: usize, findings: Vec<Finding>)
    ensures
        diagnostic_views(final(diagnostics)@) == diagnostic_views(old(diagnostics)@) + about(
            i as int,
            finding_views(findings@),
        ),
{
    let ghost all = about(i as int, finding_views(findings@));
    let mut k: usize = 0;
    assert(diagnostic_views(diagnostics@) + all.take(0) =~= diagnostic_views(diagnostics@));
    while k < findings.len()
        invariant
            k <= findings@.len(),
            all == about(i as int, finding_views(findings@)),
            diagnostic_views(diagnostics@) == diagnostic_views(old(diagnostics)@) + all.take(
                k as int,
            ),
        decreases findings@.len() - k,
    {
        let ghost before = diagnostics@;
        let finding = findings[k].clone();
        let ghost told = (i as int, finding@);
        diagnostics.push(Diagnostic { rule: i, finding });
        assert(diagnostic_views(diagnostics@) =~= diagnostic_views(before).push(told));
        assert(all.take(k + 1) =~= all.take(k as int).push(told));
        k += 1;
    }
    assert(all.take(k as int) =~= all);
}

/// A rule set is valid exactly where none of its rules is refused.
pub proof fn law_valid_means_none_refused(set: RuleSetView, n: int)
    requires
        0 <= n <= set.rules.len(),
    ensures
        0 <= refused_up_to(set, n) <= n,
        refused_up_to(set, n) == 0 <==> forall|i: int|
            0 <= i < n ==> !is_refused(set.types, #[trigger] set.rules[i]),
    decreases n,
{
    if n > 0 {
        law_valid_means_none_refused(set, n - 1);
        if refused_up_to(set, n) == 0 {
            assert forall|i: int| 0 <= i < n implies !is_refused(
                set.types,
                #[trigger] set.rules[i],
            ) by {
                if i == n - 1 {
                    assert(!is_refused(set.types, set.rules[n - 1]));
                }
            }
        }
    }
}

/// Validation of a valid set keeps every rule, in the order in which the rules were loaded.
pub proof fn law_valid_sets_keep_order(set: RuleSetView, n: int)
    requires
        0 <= n <= set.rules.len(),
        refused_up_to(set, n) == 0,
    ensures
        resolved_up_to(set, n).len() == n,
        forall|i: int|
            0 <= i < n ==> #[trigger] resolved_up_to(set, n)[i] == resolution(
                set.types,
                set.rules[i],
            ),
    decreases n,
{
    if n > 0 {
        law_valid_means_none_refused(set, n - 1);
        assert(!is_refused(set.types, set.rules[n - 1]));
        law_valid_sets_keep_order(set, n - 1);
    }
}

/// A rule with the selector of an earlier one is shadowed: no process ever finds it.
pub proof fn law_duplicates_are_shadowed(set: RuleSetView, i: int, ctx: ContextView)
    requires
        0 <= i < set.rules.len(),
        refused_up_to(set, set.rules.len() as int) == 0,
        is_duplicate(set.rules, i),
    ensures
        first_match(resolved_up_to(set, set.rules.len() as int), ctx) != Some(i),
{
    let n = set.rules.len() as int;
    let rules = resolved_up_to(set, n);
    law_valid_sets_keep_order(set, n);
    law_first_match_wins(rules, ctx);
    let j = choose|j: int| 0 <= j < i && same_selector(#[trigger] set.rules[j], set.rules[i]);
    assert(rules[j] == resolution(set.types, set.rules[j]));
    assert(rules[i] == resolution(set.types, set.rules[i]));
    assert(matches_rule(rules[j], ctx) == matches_rule(rules[i], ctx));
}

/// A field that the rule sets overrides the type; a field that it leaves open comes from the
/// type; without a type it stays open.
pub proof fn law_inheritance(types: Map<Seq<char>, TypeDefView>, rule: RuleView)
    ensures
        rule.nice is Some ==> resolution(types, rule).nice == rule.nice,
        rule.ioclass is Some ==> resolution(types, rule).ioclass == rule.ioclass,
        rule.ionice is Some ==> resolution(types, rule).ionice == rule.ionice,
        rule.oom_score_adj is Some ==> resolution(types, rule).oom_score_adj == rule.oom_score_adj,
        rule.cgroup is Some ==> resolution(types, rule).cgroup == rule.cgroup,
        rule.cgroup_weight is Some ==> resolution(types, rule).cgroup_weight == rule.cgroup_weight,
        rule.type_ref matches Some(name) ==> {
            &&& rule.nice is None ==> resolution(types, rule).nice == types[name].nice
            &&& rule.ioclass is None ==> resolution(types, rule).ioclass == types[name].ioclass
            &&& rule.ionice is None ==> resolution(types, rule).ionice == types[name].ionice
            &&& rule.oom_score_adj is None ==> resolution(types, rule).oom_score_adj
                == types[name].oom_score_adj
            &&& rule.cgroup is None ==> resolution(types, rule).cgroup == types[name].cgroup
            &&& rule.cgroup_weight is None ==> resolution(types, rule).cgroup_weight
                == types[name].cgroup_weight
        },
        rule.type_ref is None ==> {
            &&& resolution(types, rule).nice == rule.nice
            &&& resolution(types, rule).ioclass == rule.ioclass
            &&& resolution(types, rule).ionice == rule.ionice
            &&& resolution(types, rule).oom_score_adj == rule.oom_score_adj
            &&& resolution(types, rule).cgroup == rule.cgroup
            &&& resolution(types, rule).cgroup_weight == rule.cgroup_weight
        },
{
}

/// Whether one of the findings is an error.
pub open spec fn has_error(findings: Seq<FindingView>) -> bool {
    exists|k: int| 0 <= k < findings.len() && (#[trigger] findings[k]).is_error()
}

proof fn lemma_has_error_concat(a: Seq<FindingView>, b: Seq<FindingView>)
    ensures
        has_error(a + b) == (has_error(a) || has_error(b)),
{
    let both = a + b;
    if has_error(a) {
        let k = choose|k: int| 0 <= k < a.len() && (#[trigger] a[k]).is_error();
        assert(both[k].is_error());
    }
    if has_error(b) {
        let k = choose|k: int| 0 <= k < b.len() && (#[trigger] b[k]).is_error();
        assert(both[a.len() + k].is_error());
    }
    if has_error(both) {
        let k = choose|k: int| 0 <= k < both.len() && (#[trigger] both[k]).is_error();
        if k < a.len() {
            assert(a[k].is_error());
        } else {
            assert(b[k - a.len()].is_error());
        }
    }
}

proof fn lemma_has_error_when(condition: bool, finding: FindingView)
    ensures
        has_error(when(condition, finding)) == (condition && finding.is_error()),
{
    if condition {
        assert(when(condition, finding)[0] == finding);
    }
}

proof fn lemma_semantic_errors(r: ResolvedRuleView)
    ensures
        has_error(semantic_findings(r)) == !cgroup_accepted(r),
{
    let n = nice_findings(r);
    let i = ionice_findings(r);
    let o = oom_findings(r);
    let w = weight_findings(r);
    let c = cgroup_findings(r);
    let last = when(!r.has_effects(), FindingView::NoEffect);
    assert(!has_error(n));
    assert(!has_error(i));
    assert(!has_error(o));
    assert(!has_error(w));
    if !cgroup_accepted(r) {
        assert(c[0].is_error());
    }
    assert(has_error(c) == !cgroup_accepted(r));
    lemma_has_error_when(!r.has_effects(), FindingView::NoEffect);
    lemma_has_error_concat(n, i);
    lemma_has_error_concat(n + i, o);
    lemma_has_error_concat(n + i + o, w);
    lemma_has_error_concat(n + i + o + w, c);
    lemma_has_error_concat(n + i + o + w + c, last);
    assert(semantic_findings(r) == n + i + o + w + c + last);
}

/// A rule is refused exactly where one of the findings about it is an error; every other
/// finding, such as a value out of bounds or a duplicate, is only a warning.
pub proof fn law_only_errors_refuse(set: RuleSetView, i: int)
    requires
        0 <= i < set.rules.len(),
    ensures
        is_refused(set.types, set.rules[i]) <==> has_error(findings_for(set, i)),
{
    let rule = set.rules[i];
    let own = own_findings(set.types, rule);
    lemma_has_error_when(is_duplicate(set.rules, i), FindingView::DuplicateSelector);
    lemma_has_error_concat(
        when(is_duplicate(set.rules, i), FindingView::DuplicateSelector),
        own,
    );
    if type_missing(set.types, rule) || pattern_refused(rule) {
        assert(own[0].is_error());
    } else {
        lemma_semantic_errors(resolution(set.types, rule));
    }
}

} // verus!
