//! Views: what is stated of a value is stated of what the value holds, field by field.

use vstd::prelude::*;

use crate::app::{Task, TaskView};
use crate::applier::cgroup::{step_views, CgroupStep, StepView};
use crate::applier::{action_views, ActionView, ApplyAction, ApplyResult};
use crate::config::{Config, Environment};
use crate::daemon::{RetryStep, RetryStepView};
use crate::platform::linux::scheduler::{SchedulerView, ScxScheduler};
use crate::rules::lines::{entry_views, EntryLine};
use crate::rules::loader::{notice_views, LoadReport, Notice, Remark, RemarkView};
use crate::rules::matcher::{attempt_views, ExplainResult, ProcessContext};
use crate::rules::pattern::matched_texts;
use crate::rules::types::{resolved_views, ResolvedRule, Rule, RuleSet, TypeDef};
use crate::rules::validator::{diagnostic_views, Diagnostic, Finding, FindingView};
use crate::text::{text_in, texts};

verus! {

/// Strings are seen as their characters, one by one and in their order.
pub proof fn law_strings_are_seen_as_they_are(v: Seq<String>, i: int, s: Option<String>)
    requires
        0 <= i < v.len(),
    ensures
        texts(v).len() == v.len(),
        texts(v)[i] == v[i]@,
        s is None <==> text_in(s) is None,
        s is Some ==> text_in(s) == Some(s->0@),
{
}

/// Whether two optional texts are the same.
pub open spec fn is_seen(s: Option<String>, t: Option<Seq<char>>) -> bool {
    match s {
        Some(text) => t == Some(text@),
        None => t is None,
    }
}

/// A preset is seen with all its fields.
pub proof fn law_presets_are_seen_as_they_are(t: TypeDef)
    ensures
        t@.name == t.name@,
        t@.nice == t.nice,
        t@.ioclass == t.ioclass,
        t@.ionice == t.ionice,
        t@.oom_score_adj == t.oom_score_adj,
        is_seen(t.cgroup, t@.cgroup),
        t@.cgroup_weight == t.cgroup_weight,
        is_seen(t.sched, t@.sched),
{
}

/// A rule is seen with all its fields.
pub proof fn law_rules_are_seen_as_they_are(r: Rule)
    ensures
        r@.name == r.name@,
        is_seen(r.type_ref, r@.type_ref),
        r@.nice == r.nice,
        r@.ioclass == r.ioclass,
        r@.ionice == r.ionice,
        r@.oom_score_adj == r.oom_score_adj,
        is_seen(r.cgroup, r@.cgroup),
        r@.cgroup_weight == r.cgroup_weight,
        is_seen(r.exe_pattern, r@.exe_pattern),
        is_seen(r.cmdline_contains, r@.cmdline_contains),
{
}

/// A resolved rule is seen with all its fields, and its pattern as what it accepts.
pub proof fn law_resolved_rules_are_seen_as_they_are(r: ResolvedRule)
    ensures
        r@.name == r.name@,
        r@.name_lowercase == r.name_lowercase@,
        r@.nice == r.nice,
        r@.ioclass == r.ioclass,
        r@.ionice == r.ionice,
        r@.oom_score_adj == r.oom_score_adj,
        is_seen(r.cgroup, r@.cgroup),
        r@.cgroup_weight == r.cgroup_weight,
        r.exe_pattern is None <==> r@.exe_pattern is None,
        r.exe_pattern is Some ==> r@.exe_pattern == Some(matched_texts(r.exe_pattern->0)),
        is_seen(r.cmdline_contains, r@.cmdline_contains),
{
}

/// A rule set is seen with each preset under its name and each rule in its place.
pub proof fn law_rule_sets_are_seen_as_they_are(set: RuleSet, name: Seq<char>, i: int)
    ensures
        set@.types.dom() == set.types@.dom(),
        set.types@.contains_key(name) ==> set@.types[name] == set.types@[name]@,
        set@.rules.len() == set.rules@.len(),
        0 <= i < set.rules@.len() ==> set@.rules[i] == set.rules@[i]@,
{
}

/// A process is seen with all that was read of it.
pub proof fn law_contexts_are_seen_as_they_are(c: ProcessContext)
    ensures
        c@.pid == c.pid,
        c@.ppid == c.ppid,
        c@.start_time_ticks == c.start_time_ticks,
        c@.comm == c.comm@,
        c@.comm_lowercase == c.comm_lowercase@,
        is_seen(c.exe, c@.exe),
        is_seen(c.exe_name_lowercase, c@.exe_name_lowercase),
        is_seen(c.cmdline, c@.cmdline),
{
}

/// Settings are seen with all their fields.
pub proof fn law_settings_are_seen_as_they_are(c: Config, env: Environment)
    ensures
        c@.profile == c.profile,
        c@.rules_dirs == texts(c.rules_dirs@),
        c@.log_level == c.log_level@,
        c@.dry_run == c.dry_run,
        c@.apply_nice == c.apply_nice,
        c@.apply_ionice == c.apply_ionice,
        c@.apply_oom == c.apply_oom,
        c@.apply_cgroup == c.apply_cgroup,
        is_seen(c.layered_export_path, c@.layered_export_path),
        c@.exec_delay_ms == c.exec_delay_ms,
        is_seen(env.xdg_config_home, env@.xdg_config_home),
        is_seen(env.home, env@.home),
{
}

/// An action is seen as the same action with the same values, and a result with all its fields.
pub proof fn law_actions_and_results_are_seen_as_they_are(a: ApplyAction, r: ApplyResult, n: i32)
    ensures
        a is CheckPid <==> a@ is CheckPid,
        a == ApplyAction::SetNice(n) <==> a@ == ActionView::SetNice(n),
        a == ApplyAction::SetOom(n) <==> a@ == ActionView::SetOom(n),
        a is MoveToCgroup <==> a@ is MoveToCgroup,
        a is MoveToCgroup ==> {
            &&& a@->cgroup == a->cgroup@
            &&& a@->weight == a->weight
            &&& a@->io_weight == a->io_weight
        },
        r@.dry_run == r.dry_run,
        r@.nice_applied == r.nice_applied,
        r@.io_weight_applied == r.io_weight_applied,
        r@.oom_applied == r.oom_applied,
        is_seen(r.cgroup_applied, r@.cgroup_applied),
{
}

/// A scheduler is seen as itself, an unknown one with its name.
pub proof fn law_schedulers_are_seen_as_they_are(s: ScxScheduler)
    ensures
        s is Lavd <==> s@ is Lavd,
        s is Layered <==> s@ is Layered,
        s is Rusty <==> s@ is Rusty,
        s is Bpfland <==> s@ is Bpfland,
        s is NoScheduler <==> s@ is NoScheduler,
        s is Unknown <==> s@ is Unknown,
        s matches ScxScheduler::Unknown(name) ==> s@ == SchedulerView::Unknown(name@),
{
}

/// Lists are seen element by element: rules and their resolutions, actions and steps.
pub proof fn law_lists_are_seen_in_order(
    resolved: Seq<ResolvedRule>,
    actions: Seq<ApplyAction>,
    steps: Seq<CgroupStep>,
    i: int,
)
    ensures
        resolved_views(resolved).len() == resolved.len(),
        0 <= i < resolved.len() ==> resolved_views(resolved)[i] == resolved[i]@,
        action_views(actions).len() == actions.len(),
        0 <= i < actions.len() ==> action_views(actions)[i] == actions[i]@,
        step_views(steps).len() == steps.len(),
        0 <= i < steps.len() ==> step_views(steps)[i] == steps[i]@,
{
}

/// Reports are seen element by element: warnings, findings with the position of their rule,
/// entries with their line, and attempts with the name and the outcome.
pub proof fn law_reports_are_seen_in_order(
    notices: Seq<Notice>,
    diagnostics: Seq<Diagnostic>,
    entries: Seq<EntryLine>,
    attempts: Seq<(String, bool)>,
    i: int,
)
    ensures
        notice_views(notices).len() == notices.len(),
        0 <= i < notices.len() ==> {
            &&& notice_views(notices)[i].path == notices[i].path@
            &&& notice_views(notices)[i].line == notices[i].line
            &&& notice_views(notices)[i].remark == notices[i].remark@
        },
        diagnostic_views(diagnostics).len() == diagnostics.len(),
        0 <= i < diagnostics.len() ==> {
            &&& diagnostic_views(diagnostics)[i].0 == diagnostics[i].rule
            &&& diagnostic_views(diagnostics)[i].1 == diagnostics[i].finding@
        },
        entry_views(entries).len() == entries.len(),
        0 <= i < entries.len() ==> {
            &&& entry_views(entries)[i].0 == entries[i].number
            &&& entry_views(entries)[i].1 == entries[i].text@
        },
        attempt_views(attempts).len() == attempts.len(),
        0 <= i < attempts.len() ==> {
            &&& attempt_views(attempts)[i].0 == attempts[i].0@
            &&& attempt_views(attempts)[i].1 == attempts[i].1
        },
{
}

/// A finding is seen as the same finding with the same values.
pub proof fn law_findings_are_seen_as_they_are(f: Finding)
    ensures
        match f {
            Finding::DuplicateSelector => f@ is DuplicateSelector,
            Finding::MissingType(name) => f@ == FindingView::MissingType(name@),
            Finding::InvalidPattern { pattern, reason } => f@ == FindingView::InvalidPattern {
                pattern: pattern@,
                reason: reason@,
            },
            Finding::NiceOutOfBounds(n) => f@ == FindingView::NiceOutOfBounds(n),
            Finding::IoniceWithoutClass => f@ is IoniceWithoutClass,
            Finding::IoniceOutOfBounds(n) => f@ == FindingView::IoniceOutOfBounds(n),
            Finding::OomOutOfBounds(n) => f@ == FindingView::OomOutOfBounds(n),
            Finding::WeightWithoutCgroup => f@ is WeightWithoutCgroup,
            Finding::WeightOutOfBounds(n) => f@ == FindingView::WeightOutOfBounds(n),
            Finding::InvalidCgroup(path) => f@ == FindingView::InvalidCgroup(path@),
            Finding::NoEffect => f@ is NoEffect,
        },
{
}

/// A remark is seen as the same remark with the same texts.
pub proof fn law_remarks_are_seen_as_they_are(r: Remark)
    ensures
        match r {
            Remark::UnknownFields(names) => r@ == RemarkView::UnknownFields(texts(names@)),
            Remark::Malformed(why) => r@ == RemarkView::Malformed(why@),
            Remark::NotObject => r@ is NotObject,
            Remark::InvalidType(why) => r@ == RemarkView::InvalidType(why@),
            Remark::InvalidRule(why) => r@ == RemarkView::InvalidRule(why@),
            Remark::MissingTypeName => r@ is MissingTypeName,
            Remark::MissingRuleName => r@ is MissingRuleName,
            Remark::SchedIgnored => r@ is SchedIgnored,
            Remark::DuplicateType => r@ is DuplicateType,
            Remark::CgroupsIgnored => r@ is CgroupsIgnored,
        },
{
}

/// A load is seen with its rules, its warnings and its failure, and a failure with its three texts.
pub proof fn law_loads_are_seen_as_they_are(r: LoadReport)
    ensures
        r@.set == r.set@,
        r@.notices == notice_views(r.notices@),
        r.failure is None <==> r@.failure is None,
        r.failure matches Some(e) ==> r@.failure == Some((e.dir@, e.file@, e.reason@)),
{
}

/// A step of a move is seen as the same step with the same texts.
pub proof fn law_steps_are_seen_as_they_are(s: CgroupStep)
    ensures
        match s {
            CgroupStep::OpenRoot => s@ is OpenRoot,
            CgroupStep::MakeDir(name) => s@ == StepView::MakeDir(name@),
            CgroupStep::EnterDir(name) => s@ == StepView::EnterDir(name@),
            CgroupStep::Write { file, contents } => s@ == StepView::Write {
                file,
                contents: contents@,
            },
        },
{
}

/// What follows a read is seen with its context or its time, and an explanation with its rule and
/// its attempts.
pub proof fn law_decisions_are_seen_as_they_are(s: RetryStep, e: ExplainResult)
    ensures
        match s {
            RetryStep::Ready(ctx) => s@ == RetryStepView::Ready(ctx@),
            RetryStep::Sleep(ms) => s@ == RetryStepView::Sleep(ms as int),
            RetryStep::GiveUp => s@ is GiveUp,
        },
        e.matched is None <==> e@.matched is None,
        e.matched is Some ==> e@.matched == Some(e.matched->0@),
        e@.attempts == attempt_views(e.attempts@),
{
}

/// A task is seen as the same task with the same lines, directories and settings.
pub proof fn law_tasks_are_seen_as_they_are(t: Task)
    ensures
        match t {
            Task::Serve(daemon) => t@ == TaskView::Serve(daemon@),
            Task::Print(lines) => t@ == TaskView::Print(texts(lines@)),
            Task::SetProfile { profile, lines } => t@ == TaskView::SetProfile {
                profile,
                lines: texts(lines@),
            },
            Task::Explain { rules_dirs, target } => t@ == TaskView::Explain {
                rules_dirs: texts(rules_dirs@),
                target: target@,
            },
            Task::Status(config) => t@ == TaskView::Status(config@),
            Task::Check { rules_dirs } => t@ == TaskView::Check { rules_dirs: texts(rules_dirs@) },
        },
{
}

} // verus!
