//! The data of rule files, as loaded and as resolved.

use regex::Regex;
use vstd::hash_map::StringHashMap;
use vstd::prelude::*;

use crate::rules::pattern::{copy_pattern, texts_matched_by};
use crate::text::{copy_text, text_in};

verus! {

/// On-disk and in-memory IO priority class used by rule data.
///
/// The value is preserved as rule metadata and later interpreted by the
/// applier according to the currently supported runtime strategy.
#[derive(Clone, Copy, Debug, PartialEq, Eq, Structural)]
pub enum IoClass {
    NoClass,
    RealTime,
    BestEffort,
    Idle,
}

impl IoClass {
    /// The Linux numeric class identifier.
    pub open spec fn linux_class(self) -> u32 {
        match self {
            IoClass::NoClass => 0,
            IoClass::RealTime => 1,
            IoClass::BestEffort => 2,
            IoClass::Idle => 3,
        }
    }

    /// Convert the rule-level class into the Linux numeric class identifier.
    pub fn as_linux_class(self) -> (r: u32)
        ensures
            r == self.linux_class(),
    {
        match self {
            IoClass::NoClass => 0,
            IoClass::RealTime => 1,
            IoClass::BestEffort => 2,
            IoClass::Idle => 3,
        }
    }
}

/// A reusable preset loaded from a `.types` file.
///
/// Type definitions provide shared defaults that rule entries can inherit.
/// They are intentionally shallow: the loader and validator merge field values
/// directly, rather than introducing another inheritance layer.
#[derive(Debug)]
pub struct TypeDef {
    /// Human-readable preset name.
    pub name: String,
    /// Optional niceness to apply when a rule does not override it.
    pub nice: Option<i32>,
    /// Optional IO class carried through to validation and application.
    pub ioclass: Option<IoClass>,
    /// Optional numeric IO priority value used together with `ioclass`.
    pub ionice: Option<u8>,
    /// Optional `oom_score_adj` inherited by rules that select this type.
    pub oom_score_adj: Option<i32>,
    /// Optional cgroup path inherited by rules that select this type.
    pub cgroup: Option<String>,
    /// Optional cgroup-relative weight inherited by rules that select this type.
    pub cgroup_weight: Option<u64>,
    /// Compatibility-only field that is not interpreted at runtime.
    pub sched: Option<String>,
}

/// What a [`TypeDef`] holds.
#[verifier::ext_equal]
pub struct TypeDefView {
    pub name: Seq<char>,
    pub nice: Option<i32>,
    pub ioclass: Option<IoClass>,
    pub ionice: Option<u8>,
    pub oom_score_adj: Option<i32>,
    pub cgroup: Option<Seq<char>>,
    pub cgroup_weight: Option<u64>,
    pub sched: Option<Seq<char>>,
}

impl View for TypeDef {
    type V = TypeDefView;

    open spec fn view(&self) -> TypeDefView {
        TypeDefView {
            name: self.name@,
            nice: self.nice,
            ioclass: self.ioclass,
            ionice: self.ionice,
            oom_score_adj: self.oom_score_adj,
            cgroup: text_in(self.cgroup),
            cgroup_weight: self.cgroup_weight,
            sched: text_in(self.sched),
        }
    }
}

impl Clone for TypeDef {
    fn clone(&self) -> (r: TypeDef)
        ensures
            r@ == self@,
    {
        TypeDef {
            name: self.name.clone(),
            nice: self.nice,
            ioclass: self.ioclass,
            ionice: self.ionice,
            oom_score_adj: self.oom_score_adj,
            cgroup: copy_text(&self.cgroup),
            cgroup_weight: self.cgroup_weight,
            sched: copy_text(&self.sched),
        }
    }
}

/// A preset without a name that sets nothing.
pub open spec fn empty_type_def() -> TypeDefView {
    TypeDefView {
        name: Seq::empty(),
        nice: None,
        ioclass: None,
        ionice: None,
        oom_score_adj: None,
        cgroup: None,
        cgroup_weight: None,
        sched: None,
    }
}

impl Default for TypeDef {
    fn default() -> (r: TypeDef)
        ensures
            r@ == empty_type_def(),
    {
        TypeDef {
            name: String::new(),
            nice: None,
            ioclass: None,
            ionice: None,
            oom_score_adj: None,
            cgroup: None,
            cgroup_weight: None,
            sched: None,
        }
    }
}

/// A single process rule loaded from a `.rules` file.
///
/// Rules may override type defaults field by field. Matching-related fields are
/// kept alongside application fields so the resolver can validate, merge, and
/// explain the final rule in one pass.
#[derive(Debug)]
pub struct Rule {
    /// Rule name used for matching against process identity.
    pub name: String,
    /// Optional preset reference; when present, the validator resolves it from
    /// the loaded type map before applying the rule.
    pub type_ref: Option<String>,
    /// Optional niceness override.
    pub nice: Option<i32>,
    /// Optional IO class override.
    pub ioclass: Option<IoClass>,
    /// Optional IO priority override.
    pub ionice: Option<u8>,
    /// Optional memory pressure hint override.
    pub oom_score_adj: Option<i32>,
    /// Optional cgroup placement override.
    pub cgroup: Option<String>,
    /// Optional cgroup-relative weight override.
    pub cgroup_weight: Option<u64>,
    /// Optional regex applied to the full executable path.
    pub exe_pattern: Option<String>,
    /// Optional substring match against the joined command line.
    pub cmdline_contains: Option<String>,
}

/// What a [`Rule`] holds.
#[verifier::ext_equal]
pub struct RuleView {
    pub name: Seq<char>,
    pub type_ref: Option<Seq<char>>,
    pub nice: Option<i32>,
    pub ioclass: Option<IoClass>,
    pub ionice: Option<u8>,
    pub oom_score_adj: Option<i32>,
    pub cgroup: Option<Seq<char>>,
    pub cgroup_weight: Option<u64>,
    pub exe_pattern: Option<Seq<char>>,
    pub cmdline_contains: Option<Seq<char>>,
}

impl View for Rule {
    type V = RuleView;

    open spec fn view(&self) -> RuleView {
        RuleView {
            name: self.name@,
            type_ref: text_in(self.type_ref),
            nice: self.nice,
            ioclass: self.ioclass,
            ionice: self.ionice,
            oom_score_adj: self.oom_score_adj,
            cgroup: text_in(self.cgroup),
            cgroup_weight: self.cgroup_weight,
            exe_pattern: text_in(self.exe_pattern),
            cmdline_contains: text_in(self.cmdline_contains),
        }
    }
}

impl Clone for Rule {
    fn clone(&self) -> (r: Rule)
        ensures
            r@ == self@,
    {
        Rule {
            name: self.name.clone(),
            type_ref: copy_text(&self.type_ref),
            nice: self.nice,
            ioclass: self.ioclass,
            ionice: self.ionice,
            oom_score_adj: self.oom_score_adj,
            cgroup: copy_text(&self.cgroup),
            cgroup_weight: self.cgroup_weight,
            exe_pattern: copy_text(&self.exe_pattern),
            cmdline_contains: copy_text(&self.cmdline_contains),
        }
    }
}

/// A validated rule with all inheritance resolved and regexes compiled.
///
/// This is the form used by the matcher and applier. Storing derived helper
/// fields such as `name_lowercase` avoids repeated allocation in the hot path.
#[derive(Debug)]
pub struct ResolvedRule {
    /// Original rule name, preserved for diagnostics.
    pub name: String,
    /// Lowercased name for case-insensitive matching.
    pub name_lowercase: String,
    /// Effective niceness after merging rule and type defaults.
    pub nice: Option<i32>,
    /// Effective IO class after merging rule and type defaults.
    pub ioclass: Option<IoClass>,
    /// Effective IO priority after merging rule and type defaults.
    pub ionice: Option<u8>,
    /// Effective memory pressure hint after merging rule and type defaults.
    pub oom_score_adj: Option<i32>,
    /// Effective cgroup path after merging rule and type defaults.
    pub cgroup: Option<String>,
    /// Effective cgroup-relative weight after merging rule and type defaults.
    pub cgroup_weight: Option<u64>,
    /// Compiled executable-path regex used by the matcher.
    pub exe_pattern: Option<Regex>,
    /// Lower-cost string predicate applied to the joined command line.
    pub cmdline_contains: Option<String>,
}

/// What a [`ResolvedRule`] holds; the expression stands for the texts that it matches.
#[verifier::ext_equal]
pub struct ResolvedRuleView {
    pub name: Seq<char>,
    pub name_lowercase: Seq<char>,
    pub nice: Option<i32>,
    pub ioclass: Option<IoClass>,
    pub ionice: Option<u8>,
    pub oom_score_adj: Option<i32>,
    pub cgroup: Option<Seq<char>>,
    pub cgroup_weight: Option<u64>,
    pub exe_pattern: Option<Set<Seq<char>>>,
    pub cmdline_contains: Option<Seq<char>>,
}

impl View for ResolvedRule {
    type V = ResolvedRuleView;

    open spec fn view(&self) -> ResolvedRuleView {
        ResolvedRuleView {
            name: self.name@,
            name_lowercase: self.name_lowercase@,
            nice: self.nice,
            ioclass: self.ioclass,
            ionice: self.ionice,
            oom_score_adj: self.oom_score_adj,
            cgroup: text_in(self.cgroup),
            cgroup_weight: self.cgroup_weight,
            exe_pattern: texts_matched_by(self.exe_pattern),
            cmdline_contains: text_in(self.cmdline_contains),
        }
    }
}

impl ResolvedRuleView {
    /// Whether the rule changes any process attribute or placement.
    pub open spec fn has_effects(self) -> bool {
        self.nice is Some || self.ioclass is Some || self.oom_score_adj is Some
            || self.cgroup is Some
    }
}

impl ResolvedRule {
    /// Report whether the rule changes any process attribute or placement.
    ///
    /// Matching-only rules are usually a configuration mistake, so the validator
    /// emits a warning when this returns `false`.
    pub fn has_effects(&self) -> (r: bool)
        ensures
            r == self@.has_effects(),
    {
        self.nice.is_some() || self.ioclass.is_some() || self.oom_score_adj.is_some()
            || self.cgroup.is_some()
    }
}

impl Clone for ResolvedRule {
    fn clone(&self) -> (r: ResolvedRule)
        ensures
            r@ == self@,
    {
        ResolvedRule {
            name: self.name.clone(),
            name_lowercase: self.name_lowercase.clone(),
            nice: self.nice,
            ioclass: self.ioclass,
            ionice: self.ionice,
            oom_score_adj: self.oom_score_adj,
            cgroup: copy_text(&self.cgroup),
            cgroup_weight: self.cgroup_weight,
            exe_pattern: copy_pattern(&self.exe_pattern),
            cmdline_contains: copy_text(&self.cmdline_contains),
        }
    }
}

/// In-memory collection of all loaded rule inputs.
///
/// Types and rules are stored separately so the loader can accept the upstream
/// file layout and the validator can resolve inheritance in a second pass.
pub struct RuleSet {
    /// Loaded type presets keyed by preset name.
    pub types: StringHashMap<TypeDef>,
    /// Loaded rule entries in file order.
    pub rules: Vec<Rule>,
}

/// What a [`RuleSet`] holds.
#[verifier::ext_equal]
pub struct RuleSetView {
    pub types: Map<Seq<char>, TypeDefView>,
    pub rules: Seq<RuleView>,
}

/// The presets that a map of type definitions holds.
pub open spec fn type_views(types: Map<Seq<char>, TypeDef>) -> Map<Seq<char>, TypeDefView> {
    types.map_values(|t: TypeDef| t@)
}

/// What each rule of a sequence holds.
pub open spec fn rule_views(rules: Seq<Rule>) -> Seq<RuleView> {
    rules.map_values(|r: Rule| r@)
}

/// What each resolved rule of a sequence holds.
pub open spec fn resolved_views(rules: Seq<ResolvedRule>) -> Seq<ResolvedRuleView> {
    rules.map_values(|r: ResolvedRule| r@)
}

impl View for RuleSet {
    type V = RuleSetView;

    open spec fn view(&self) -> RuleSetView {
        RuleSetView { types: type_views(self.types@), rules: rule_views(self.rules@) }
    }
}

/// The rule set without types and rules.
pub open spec fn empty_rule_set() -> RuleSetView {
    RuleSetView { types: Map::empty(), rules: Seq::empty() }
}

impl RuleSet {
    /// Create an empty rule set.
    pub fn new() -> (r: RuleSet)
        ensures
            r@ == empty_rule_set(),
    {
        let r = RuleSet { types: StringHashMap::new(), rules: Vec::new() };
        assert(r@.types =~= Map::empty());
        assert(r@.rules =~= Seq::empty());
        r
    }
}

} // verus!
