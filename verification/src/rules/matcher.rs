//! Processes as rules see them, and the first rule that matches one.

use vstd::hash_set::StringHashSet;
use vstd::prelude::*;
use vstd::string::StrSliceExecFns;
use vstd::utf8::encode_utf8;

use crate::rules::truncate::{fitting_prefix, lemma_exact_prefix_fits, truncate_to_char_boundary};
use crate::rules::types::{resolved_views, ResolvedRule, ResolvedRuleView};
use crate::text::{
    byte_len, chars_of, contains, has_substring, lemma_encode_utf8_concat, lemma_encode_utf8_width,
    lowercase, starts_with, text_in, texts,
};

verus! {

/// Maximum length of a process `comm` string; determined by the kernel's
/// TASK_COMM_LEN constant (16), which includes the NUL terminator,
/// so the usable maximum is 15 bytes.
pub const MAX_COMM_LEN: usize = 15;

/// What stands behind the last `c` of `s`; all of `s` where there is none.
pub open spec fn after_last(s: Seq<char>, c: char) -> Seq<char>
    decreases s.len(),
{
    if s.len() == 0 || s.last() == c {
        Seq::empty()
    } else {
        after_last(s.drop_last(), c).push(s.last())
    }
}

/// What stands behind the last slash of `path`.
pub fn base_name(path: &str) -> (r: &str)
    ensures
        r@ == after_last(path@, '/'),
{
    let v = chars_of(path);
    let mut from: usize = v.len();
    assert(v@.take(from as int) == v@);
    assert(v@.subrange(from as int, v@.len() as int) =~= Seq::<char>::empty());
    assert(after_last(v@, '/') =~= after_last(v@, '/') + Seq::<char>::empty());
    while from > 0 && v[from - 1] != '/'
        invariant
            from <= v@.len(),
            after_last(v@, '/') == after_last(v@.take(from as int), '/') + v@.subrange(
                from as int,
                v@.len() as int,
            ),
        decreases from,
    {
        let ghost head = v@.take(from as int);
        assert(head.last() == v@[from - 1]);
        assert(head.drop_last() == v@.take(from - 1));
        from -= 1;
        assert(after_last(head, '/') + v@.subrange(from + 1, v@.len() as int) =~= after_last(
            v@.take(from as int),
            '/',
        ) + v@.subrange(from as int, v@.len() as int));
    }
    proof {
        let head = v@.take(from as int);
        if from > 0 {
            assert(head.last() == v@[from - 1]);
        }
        assert(after_last(head, '/') =~= Seq::<char>::empty());
        assert(after_last(v@, '/') =~= v@.subrange(from as int, v@.len() as int));
    }
    path.substring_char(from, v.len())
}

/// The texts one after the other, with `sep` between them.
pub open spec fn joined(parts: Seq<Seq<char>>, sep: Seq<char>) -> Seq<char>
    decreases parts.len(),
{
    if parts.len() == 0 {
        Seq::empty()
    } else if parts.len() == 1 {
        parts[0]
    } else {
        joined(parts.drop_last(), sep) + sep + parts.last()
    }
}

/// The texts one after the other, with `sep` between them.
pub fn join(parts: &Vec<String>, sep: &str) -> (r: String)
    ensures
        r@ == joined(texts(parts@), sep@),
{
    let mut r = String::new();
    let mut i: usize = 0;
    assert(texts(parts@).take(0) =~= Seq::empty());
    while i < parts.len()
        invariant
            i <= parts@.len(),
            r@ == joined(texts(parts@).take(i as int), sep@),
        decreases parts@.len() - i,
    {
        let ghost all = texts(parts@);
        assert(all.take(i + 1).drop_last() =~= all.take(i as int));
        assert(all.take(i + 1).last() == parts@[i as int]@);
        if i > 0 {
            r.append(sep);
        } else {
            assert(r@ =~= Seq::empty());
        }
        r.append(parts[i].as_str());
        assert(i == 0 ==> r@ =~= parts@[0]@);
        i += 1;
    }
    assert(texts(parts@).take(i as int) =~= texts(parts@));
    r
}

/// What was read about a process under `/proc/<pid>`.
#[derive(Clone, Debug)]
pub struct ProcSnapshot {
    /// Parent from `/proc/<pid>/stat`.
    pub ppid: i32,
    /// Start time in clock ticks from `/proc/<pid>/stat`.
    pub start_time_ticks: u64,
    /// `comm` from `/proc/<pid>/stat`.
    pub comm: String,
    /// Target of `/proc/<pid>/exe`, where it could be read.
    pub exe: Option<String>,
    /// Arguments from `/proc/<pid>/cmdline`, where they could be read.
    pub args: Option<Vec<String>>,
}

/// Snapshot of a running process used for rule matching.
#[derive(Clone, Debug)]
pub struct ProcessContext {
    pub pid: u32,
    pub ppid: u32,
    /// Monotonic kernel start time from /proc/PID/stat, used to detect PID reuse.
    pub start_time_ticks: u64,
    /// `comm` from /proc/PID/stat (kernel-truncated to 15 bytes).
    pub comm: String,
    /// Pre-computed lowercase of `comm`; avoids per-rule allocation in hot path.
    pub comm_lowercase: String,
    /// Resolved exe path from /proc/PID/exe.
    pub exe: Option<String>,
    /// Pre-computed lowercase of the exe basename; avoids per-rule allocation in hot path.
    pub exe_name_lowercase: Option<String>,
    /// Space-joined argv from /proc/PID/cmdline.
    pub cmdline: Option<String>,
}

/// What a [`ProcessContext`] holds.
#[verifier::ext_equal]
pub struct ContextView {
    pub pid: u32,
    pub ppid: u32,
    pub start_time_ticks: u64,
    pub comm: Seq<char>,
    pub comm_lowercase: Seq<char>,
    pub exe: Option<Seq<char>>,
    pub exe_name_lowercase: Option<Seq<char>>,
    pub cmdline: Option<Seq<char>>,
}

impl View for ProcessContext {
    type V = ContextView;

    open spec fn view(&self) -> ContextView {
        ContextView {
            pid: self.pid,
            ppid: self.ppid,
            start_time_ticks: self.start_time_ticks,
            comm: self.comm@,
            comm_lowercase: self.comm_lowercase@,
            exe: text_in(self.exe),
            exe_name_lowercase: text_in(self.exe_name_lowercase),
            cmdline: text_in(self.cmdline),
        }
    }
}

/// The base name of an executable path.
pub open spec fn exe_name_of(exe: Option<Seq<char>>) -> Option<Seq<char>> {
    match exe {
        Some(path) => Some(after_last(path, '/')),
        None => None,
    }
}

/// The command line that arguments make: none where they could not be read or there are none.
pub open spec fn cmdline_of(args: Option<Vec<String>>) -> Option<Seq<char>> {
    match args {
        Some(list) => if list@.len() == 0 {
            None
        } else {
            Some(joined(texts(list@), " "@))
        },
        None => None,
    }
}

/// The context that a snapshot of a process makes.
pub open spec fn context_of(pid: u32, s: ProcSnapshot) -> ContextView {
    ContextView {
        pid,
        ppid: s.ppid as u32,
        start_time_ticks: s.start_time_ticks,
        comm: s.comm@,
        comm_lowercase: lowercase(s.comm@),
        exe: text_in(s.exe),
        exe_name_lowercase: match exe_name_of(text_in(s.exe)) {
            Some(name) => Some(lowercase(name)),
            None => None,
        },
        cmdline: cmdline_of(s.args),
    }
}

/// The context of a process of which only the name is known.
pub open spec fn context_named(comm: Seq<char>) -> ContextView {
    ContextView {
        pid: 0,
        ppid: 0,
        start_time_ticks: 0,
        comm,
        comm_lowercase: lowercase(comm),
        exe: None,
        exe_name_lowercase: None,
        cmdline: None,
    }
}

impl ProcessContext {
    /// Build a context from what was read about the process under `/proc/<pid>`.
    pub fn from_pid(pid: u32, s: ProcSnapshot) -> (r: ProcessContext)
        ensures
            r@ == context_of(pid, s),
    {
        let comm_lowercase = s.comm.as_str().to_lowercase();
        let exe_name_lowercase = match &s.exe {
            Some(path) => Some(base_name(path.as_str()).to_lowercase()),
            None => None,
        };
        let cmdline = match &s.args {
            Some(list) => if list.len() == 0 {
                None
            } else {
                Some(join(list, " "))
            },
            None => None,
        };
        ProcessContext {
            pid,
            ppid: s.ppid as u32,
            start_time_ticks: s.start_time_ticks,
            comm: s.comm,
            comm_lowercase,
            exe: s.exe,
            exe_name_lowercase,
            cmdline,
        }
    }

    /// Build a context for a process of which only the name is known.
    pub fn named(comm: &str) -> (r: ProcessContext)
        ensures
            r@ == context_named(comm@),
    {
        ProcessContext {
            pid: 0,
            ppid: 0,
            start_time_ticks: 0,
            comm: comm.to_owned(),
            comm_lowercase: comm.to_lowercase(),
            exe: None,
            exe_name_lowercase: None,
            cmdline: None,
        }
    }

    /// Best-effort PID reuse check before applying scheduler hints: `current` is the start time
    /// that the PID has now, or `None` where the process is gone.
    pub fn matches_current_pid(&self, current: Option<u64>) -> (r: bool)
        ensures
            r == (current == Some(self@.start_time_ticks)),
    {
        match current {
            Some(ticks) => ticks == self.start_time_ticks,
            None => false,
        }
    }

    /// Basename of the exe path (useful when comm is truncated).
    pub fn exe_name(&self) -> (r: Option<&str>)
        ensures
            match r {
                Some(name) => exe_name_of(self@.exe) == Some(name@),
                None => self@.exe is None,
            },
    {
        match &self.exe {
            Some(path) => Some(base_name(path.as_str())),
            None => None,
        }
    }
}

/// Whether the name of a rule fits the process: a rule without a name fits every process;
/// else the lower-case names are equal, or a `comm` at the kernel's limit is the beginning of
/// the rule's name, or the base name of the executable is the rule's name.
pub open spec fn name_matches(rule: ResolvedRuleView, ctx: ContextView) -> bool {
    ||| rule.name.len() == 0
    ||| ctx.comm_lowercase == rule.name_lowercase
    ||| encode_utf8(ctx.comm).len() >= MAX_COMM_LEN && ctx.comm_lowercase.is_prefix_of(
        rule.name_lowercase,
    )
    ||| ctx.exe_name_lowercase == Some(rule.name_lowercase)
}

/// Whether the pattern of a rule, where it has one, finds a match in the executable path.
pub open spec fn exe_pattern_matches(rule: ResolvedRuleView, ctx: ContextView) -> bool {
    match rule.exe_pattern {
        Some(accepted) => match ctx.exe {
            Some(exe) => accepted.contains(exe),
            None => false,
        },
        None => true,
    }
}

/// Whether the needle of a rule, where it has one, occurs in the command line.
pub open spec fn cmdline_matches(rule: ResolvedRuleView, ctx: ContextView) -> bool {
    match rule.cmdline_contains {
        Some(needle) => match ctx.cmdline {
            Some(cmdline) => has_substring(cmdline, needle),
            None => false,
        },
        None => true,
    }
}

/// Whether a rule matches a process: its name and all the predicates it has.
pub open spec fn matches_rule(rule: ResolvedRuleView, ctx: ContextView) -> bool {
    name_matches(rule, ctx) && exe_pattern_matches(rule, ctx) && cmdline_matches(rule, ctx)
}

/// Position of the first rule that matches.
pub open spec fn first_match(rules: Seq<ResolvedRuleView>, ctx: ContextView) -> Option<int>
    decreases rules.len(),
{
    if rules.len() == 0 {
        None
    } else if matches_rule(rules[0], ctx) {
        Some(0)
    } else {
        match first_match(rules.drop_first(), ctx) {
            Some(i) => Some(i + 1),
            None => None,
        }
    }
}

/// Whether `i` is the position of the first rule that matches.
pub open spec fn is_first_match(rules: Seq<ResolvedRuleView>, ctx: ContextView, i: int) -> bool {
    &&& 0 <= i < rules.len()
    &&& matches_rule(rules[i], ctx)
    &&& forall|k: int| 0 <= k < i ==> !matches_rule(#[trigger] rules[k], ctx)
}

/// First match wins: a result is the position of a rule that matches while no earlier one
/// does, and there is no result only where no rule matches.
pub proof fn law_first_match_wins(rules: Seq<ResolvedRuleView>, ctx: ContextView)
    ensures
        match first_match(rules, ctx) {
            Some(i) => is_first_match(rules, ctx, i),
            None => forall|k: int| 0 <= k < rules.len() ==> !matches_rule(#[trigger] rules[k], ctx),
        },
    decreases rules.len(),
{
    if rules.len() > 0 && !matches_rule(rules[0], ctx) {
        let rest = rules.drop_first();
        law_first_match_wins(rest, ctx);
        assert forall|k: int| 0 < k < rules.len() implies rules[k] == #[trigger] rest[k - 1] by {}
        match first_match(rest, ctx) {
            Some(i) => {
                assert(rest[i] == rules[i + 1]);
                assert forall|k: int| 0 <= k < i + 1 implies !matches_rule(
                    #[trigger] rules[k],
                    ctx,
                ) by {
                    if k > 0 {
                        assert(rules[k] == rest[k - 1]);
                    }
                }
            },
            None => {
                assert forall|k: int| 0 <= k < rules.len() implies !matches_rule(
                    #[trigger] rules[k],
                    ctx,
                ) by {
                    if k > 0 {
                        assert(rules[k] == rest[k - 1]);
                    }
                }
            },
        }
    }
}

/// The position of the first match is the only one with that property.
proof fn lemma_first_match_unique(rules: Seq<ResolvedRuleView>, ctx: ContextView, i: int)
    requires
        is_first_match(rules, ctx, i),
    ensures
        first_match(rules, ctx) == Some(i),
{
    law_first_match_wins(rules, ctx);
    match first_match(rules, ctx) {
        Some(j) => {
            if j < i {
                assert(!matches_rule(rules[j], ctx));
            } else if i < j {
                assert(!matches_rule(rules[i], ctx));
            }
        },
        None => {
            assert(!matches_rule(rules[i], ctx));
        },
    }
}

/// Whether a named rule could match the process by what the name index tells: a rule's name is
/// the process's name, or the name of its executable, or the `comm` is at the kernel's limit
/// and a longer rule name cut to that limit is the process's name.
spec fn is_keyed(rule: ResolvedRuleView, ctx: ContextView) -> bool {
    &&& rule.name.len() > 0
    &&& {
        ||| rule.name_lowercase == ctx.comm_lowercase
        ||| encode_utf8(ctx.comm).len() >= MAX_COMM_LEN && encode_utf8(rule.name_lowercase).len()
            > MAX_COMM_LEN && fitting_prefix(rule.name_lowercase, MAX_COMM_LEN as nat)
            == ctx.comm_lowercase
        ||| ctx.exe_name_lowercase == Some(rule.name_lowercase)
    }
}

/// Whether the index of cut names says nothing about the process: its `comm` is at the kernel's
/// limit, but in lower case takes another number of bytes than the cut names do.
spec fn is_beyond_index(ctx: ContextView) -> bool {
    encode_utf8(ctx.comm).len() >= MAX_COMM_LEN && encode_utf8(ctx.comm_lowercase).len()
        != MAX_COMM_LEN
}

/// Whether the rules are worth scanning for the process: one of them has no name, or the name
/// index tells of a candidate or says nothing.
spec fn worth_scanning(rules: Seq<ResolvedRuleView>, ctx: ContextView) -> bool {
    ||| is_beyond_index(ctx)
    ||| exists|i: int|
        0 <= i < rules.len() && ((#[trigger] rules[i]).name.len() == 0 || is_keyed(rules[i], ctx))
}

/// No rule matches a process for which the rules are not worth scanning.
proof fn lemma_reject_is_sound(rules: Seq<ResolvedRuleView>, ctx: ContextView)
    requires
        !worth_scanning(rules, ctx),
    ensures
        first_match(rules, ctx) is None,
{
    law_first_match_wins(rules, ctx);
    match first_match(rules, ctx) {
        Some(i) => {
            let rule = rules[i];
            if rule.name.len() > 0 && rule.name_lowercase != ctx.comm_lowercase
                && ctx.exe_name_lowercase != Some(rule.name_lowercase) {
                let p = ctx.comm_lowercase;
                let more = rule.name_lowercase.skip(p.len() as int);
                assert(rule.name_lowercase =~= p + more);
                if more.len() == 0 {
                    assert(rule.name_lowercase =~= p);
                }
                lemma_encode_utf8_concat(p, more);
                lemma_encode_utf8_width(more);
                lemma_exact_prefix_fits(p, rule.name_lowercase, MAX_COMM_LEN as nat);
                assert(is_keyed(rule, ctx));
            }
        },
        None => {},
    }
}

/// A rule never matches by being shorter than the `comm`: where only the beginning agrees, it
/// is the rule's name that is longer.
pub proof fn law_prefix_match_is_one_way(rule: ResolvedRuleView, ctx: ContextView)
    requires
        name_matches(rule, ctx),
        rule.name.len() > 0,
        ctx.exe_name_lowercase != Some(rule.name_lowercase),
    ensures
        ctx.comm_lowercase.is_prefix_of(rule.name_lowercase),
        encode_utf8(ctx.comm).len() < MAX_COMM_LEN ==> ctx.comm_lowercase == rule.name_lowercase,
{
}

/// Matching ignores case: the same rule matches two processes that differ only in how their
/// `comm` is capitalised, as long as both or neither of the two fill the kernel's limit.
pub proof fn law_match_ignores_case(rule: ResolvedRuleView, a: ContextView, b: ContextView)
    requires
        a.comm_lowercase == b.comm_lowercase,
        a.exe_name_lowercase == b.exe_name_lowercase,
        a.exe == b.exe,
        a.cmdline == b.cmdline,
        encode_utf8(a.comm).len() >= MAX_COMM_LEN <==> encode_utf8(b.comm).len() >= MAX_COMM_LEN,
    ensures
        matches_rule(rule, a) == matches_rule(rule, b),
{
}

/// A resolved rule set, ready to be matched against processes.
pub struct Matcher {
    rules: Vec<ResolvedRule>,
    /// The lower-case names of all named rules.
    names: StringHashSet,
    /// Prefix lookup for truncated `comm`: the longer lower-case names, cut to
    /// `MAX_COMM_LEN` bytes.
    prefixes: StringHashSet,
    /// True if any rule has an empty name (must always be checked).
    has_nameless: bool,
}

impl View for Matcher {
    type V = Seq<ResolvedRuleView>;

    closed spec fn view(&self) -> Seq<ResolvedRuleView> {
        resolved_views(self.rules@)
    }
}

spec fn has_name(rules: Seq<ResolvedRuleView>, name: Seq<char>) -> bool {
    exists|i: int|
        0 <= i < rules.len() && (#[trigger] rules[i]).name.len() > 0 && rules[i].name_lowercase
            == name
}

spec fn has_prefix(rules: Seq<ResolvedRuleView>, prefix: Seq<char>) -> bool {
    exists|i: int|
        0 <= i < rules.len() && (#[trigger] rules[i]).name.len() > 0 && encode_utf8(
            rules[i].name_lowercase,
        ).len() > MAX_COMM_LEN && fitting_prefix(rules[i].name_lowercase, MAX_COMM_LEN as nat)
            == prefix
}

spec fn lacks_name(rules: Seq<ResolvedRuleView>) -> bool {
    exists|i: int| 0 <= i < rules.len() && (#[trigger] rules[i]).name.len() == 0
}

/// Whether the index describes `rules`.
spec fn indexes(
    rules: Seq<ResolvedRuleView>,
    names: Set<Seq<char>>,
    prefixes: Set<Seq<char>>,
    has_nameless: bool,
) -> bool {
    &&& forall|name: Seq<char>| names.contains(name) <==> has_name(rules, name)
    &&& forall|prefix: Seq<char>| prefixes.contains(prefix) <==> has_prefix(rules, prefix)
    &&& has_nameless == lacks_name(rules)
}

/// One more rule changes the index by what that rule contributes.
proof fn lemma_index_grows(rules: Seq<ResolvedRuleView>, rule: ResolvedRuleView)
    ensures
        forall|name: Seq<char>| #[trigger]
            has_name(rules.push(rule), name) == (has_name(rules, name) || rule.name.len() > 0
                && rule.name_lowercase == name),
        forall|prefix: Seq<char>| #[trigger]
            has_prefix(rules.push(rule), prefix) == (has_prefix(rules, prefix) || rule.name.len()
                > 0 && encode_utf8(rule.name_lowercase).len() > MAX_COMM_LEN && fitting_prefix(
                rule.name_lowercase,
                MAX_COMM_LEN as nat,
            ) == prefix),
        lacks_name(rules.push(rule)) == (lacks_name(rules) || rule.name.len() == 0),
{
    let more = rules.push(rule);
    let n = rules.len() as int;
    assert(more[n] == rule);
    assert(forall|i: int| 0 <= i < n ==> more[i] == #[trigger] rules[i]);
    assert(forall|i: int| 0 <= i < n ==> #[trigger] more[i] == rules[i]);
}

impl Matcher {
    #[verifier::type_invariant]
    spec fn indexed(self) -> bool {
        indexes(resolved_views(self.rules@), self.names@, self.prefixes@, self.has_nameless)
    }

    /// Index the rules by name.
    pub fn new(rules: Vec<ResolvedRule>) -> (r: Matcher)
        ensures
            r@ == resolved_views(rules@),
    {
        let mut names = StringHashSet::new();
        let mut prefixes = StringHashSet::new();
        let mut has_nameless = false;
        let mut i: usize = 0;
        let ghost all = resolved_views(rules@);
        assert(all.take(0) =~= Seq::empty());
        while i < rules.len()
            invariant
                i <= rules@.len(),
                all == resolved_views(rules@),
                indexes(all.take(i as int), names@, prefixes@, has_nameless),
            decreases rules@.len() - i,
        {
            let rule = &rules[i];
            proof {
                assert(all.take(i + 1) =~= all.take(i as int).push(all[i as int]));
                assert(all[i as int] == rule@);
                lemma_index_grows(all.take(i as int), rule@);
            }
            if rule.name.as_str().is_empty() {
                has_nameless = true;
            } else {
                names.insert(rule.name_lowercase.clone());
                // Longer names are also indexed by their cut so a truncated `comm` finds them.
                if byte_len(rule.name_lowercase.as_str()) > MAX_COMM_LEN {
                    let cut = truncate_to_char_boundary(
                        rule.name_lowercase.as_str(),
                        MAX_COMM_LEN,
                    );
                    prefixes.insert(cut.to_owned());
                }
            }
            i += 1;
        }
        assert(all.take(i as int) =~= all);
        Matcher { rules, names, prefixes, has_nameless }
    }

    /// Whether the rules are worth scanning for the process.
    fn worth_scanning(&self, ctx: &ProcessContext) -> (r: bool)
        ensures
            r == worth_scanning(self@, ctx@),
    {
        proof {
            use_type_invariant(self);
            let rules = self@;
            assert(worth_scanning(rules, ctx@) <==> is_beyond_index(ctx@) || lacks_name(rules)
                || has_name(rules, ctx@.comm_lowercase) || encode_utf8(ctx@.comm).len()
                >= MAX_COMM_LEN && has_prefix(rules, ctx@.comm_lowercase) || ctx@.exe_name_lowercase is Some && has_name(rules, ctx@.exe_name_lowercase->0));
        }
        let comm = ctx.comm_lowercase.as_str();
        if self.has_nameless || self.names.contains(comm) {
            return true;
        }
        if byte_len(ctx.comm.as_str()) >= MAX_COMM_LEN && (byte_len(comm) != MAX_COMM_LEN
            || self.prefixes.contains(comm)) {
            return true;
        }
        match &ctx.exe_name_lowercase {
            Some(name) => self.names.contains(name.as_str()),
            None => false,
        }
    }

    /// Return the first rule that matches `ctx`, or `None`.
    ///
    /// Fast path: if neither `comm_lowercase` nor `exe_name_lowercase` appears
    /// in any rule's name (and there are no nameless rules), we return `None`
    /// immediately without iterating over the rule list at all.  This is the
    /// common case — most short-lived processes (`ls`, `sh`, ...) have no
    /// matching rule and would otherwise trigger an O(n) scan.
    pub fn find_match<'a>(&'a self, ctx: &ProcessContext) -> (r: Option<&'a ResolvedRule>)
        ensures
            match r {
                Some(rule) => first_match(self@, ctx@) matches Some(i) && 0 <= i < self@.len()
                    && rule@ == self@[i],
                None => first_match(self@, ctx@) is None,
            },
    {
        if !self.worth_scanning(ctx) {
            proof {
                lemma_reject_is_sound(self@, ctx@);
            }
            return None;
        }
        let mut i: usize = 0;
        while i < self.rules.len()
            invariant
                i <= self.rules@.len(),
                forall|k: int| 0 <= k < i ==> !matches_rule(#[trigger] self@[k], ctx@),
            decreases self.rules@.len() - i,
        {
            let rule = &self.rules[i];
            assert(self@[i as int] == rule@);
            if rule_matches(rule, ctx) {
                proof {
                    lemma_first_match_unique(self@, ctx@, i as int);
                }
                return Some(rule);
            }
            i += 1;
        }
        proof {
            law_first_match_wins(self@, ctx@);
        }
        None
    }

    /// Describe the matching process for debugging.
    pub fn explain(&self, ctx: &ProcessContext) -> (r: ExplainResult)
        ensures
            r@ == explanation(self@, ctx@),
    {
        let mut attempts: Vec<(String, bool)> = Vec::new();
        let mut matched: Option<ResolvedRule> = None;
        let mut i: usize = 0;
        while i < self.rules.len()
            invariant
                i <= self.rules@.len(),
                attempt_views(attempts@) == Seq::new(
                    i as nat,
                    |k: int| (self@[k].name, matches_rule(self@[k], ctx@)),
                ),
                match matched {
                    Some(rule) => first_match(self@, ctx@) matches Some(j) && 0 <= j < i && rule@
                        == self@[j],
                    None => forall|k: int| 0 <= k < i ==> !matches_rule(#[trigger] self@[k], ctx@),
                },
            decreases self.rules@.len() - i,
        {
            let rule = &self.rules[i];
            let ghost before = attempts@;
            assert(self@[i as int] == rule@);
            let hit = rule_matches(rule, ctx);
            attempts.push((rule.name.clone(), hit));
            assert(attempt_views(attempts@) =~= attempt_views(before).push((rule@.name, hit)));
            if hit && matched.is_none() {
                proof {
                    lemma_first_match_unique(self@, ctx@, i as int);
                }
                matched = Some(rule.clone());
            }
            i += 1;
        }
        proof {
            law_first_match_wins(self@, ctx@);
        }
        ExplainResult { matched, attempts }
    }
}

/// Whether a rule matches a process.
pub fn rule_matches(rule: &ResolvedRule, ctx: &ProcessContext) -> (r: bool)
    ensures
        r == matches_rule(rule@, ctx@),
{
    if !rule.name.as_str().is_empty() {
        let name = rule.name_lowercase.as_str();
        let comm = ctx.comm_lowercase.as_str();
        let comm_matches = ctx.comm_lowercase == rule.name_lowercase || (byte_len(
            ctx.comm.as_str(),
        ) >= MAX_COMM_LEN && starts_with(name, comm));
        let exe_matches = match &ctx.exe_name_lowercase {
            Some(exe_name) => *exe_name == rule.name_lowercase,
            None => false,
        };
        if !comm_matches && !exe_matches {
            return false;
        }
    }
    match &rule.exe_pattern {
        Some(pattern) => match &ctx.exe {
            Some(exe) => {
                if !pattern.is_match(exe.as_str()) {
                    return false;
                }
            },
            None => {
                return false;
            },
        },
        None => {},
    }
    match &rule.cmdline_contains {
        Some(needle) => match &ctx.cmdline {
            Some(cmdline) => contains(cmdline.as_str(), needle.as_str()),
            None => false,
        },
        None => true,
    }
}

/// Which rule matches a process, and how every rule fared.
pub struct ExplainResult {
    /// The first matching rule, if any.
    pub matched: Option<ResolvedRule>,
    /// `(rule_name, did_match)` for every rule checked.
    pub attempts: Vec<(String, bool)>,
}

/// What an [`ExplainResult`] holds.
#[verifier::ext_equal]
pub struct ExplainView {
    pub matched: Option<ResolvedRuleView>,
    pub attempts: Seq<(Seq<char>, bool)>,
}

/// The attempts of an explanation.
pub open spec fn attempt_views(attempts: Seq<(String, bool)>) -> Seq<(Seq<char>, bool)> {
    attempts.map_values(|a: (String, bool)| (a.0@, a.1))
}

impl View for ExplainResult {
    type V = ExplainView;

    open spec fn view(&self) -> ExplainView {
        ExplainView {
            matched: match self.matched {
                Some(rule) => Some(rule@),
                None => None,
            },
            attempts: attempt_views(self.attempts@),
        }
    }
}

/// The first rule that matches, found by scanning, and every rule's name with its result.
pub open spec fn explanation(rules: Seq<ResolvedRuleView>, ctx: ContextView) -> ExplainView {
    ExplainView {
        matched: match first_match(rules, ctx) {
            Some(i) => Some(rules[i]),
            None => None,
        },
        attempts: Seq::new(
            rules.len(),
            |k: int| (rules[k].name, matches_rule(rules[k], ctx)),
        ),
    }
}

/// The explanation names the rule that is found for the process, and the attempt at that rule is
/// the first that succeeded.
pub proof fn law_explanation_agrees(rules: Seq<ResolvedRuleView>, ctx: ContextView)
    ensures
        match first_match(rules, ctx) {
            Some(i) => {
                &&& explanation(rules, ctx).matched == Some(rules[i])
                &&& explanation(rules, ctx).attempts[i].1
                &&& forall|k: int| 0 <= k < i ==> !(#[trigger] explanation(rules, ctx).attempts[k]).1
            },
            None => {
                &&& explanation(rules, ctx).matched is None
                &&& forall|k: int|
                    0 <= k < rules.len() ==> !(#[trigger] explanation(rules, ctx).attempts[k]).1
            },
        },
{
    law_first_match_wins(rules, ctx);
}

} // verus!
