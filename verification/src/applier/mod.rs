//! Turning a matched rule into changes of a process.

pub mod cgroup;
pub mod io_weight;
pub mod process;

use vstd::prelude::*;

use crate::applier::cgroup::{
    after_outcomes, cgroup_components, law_move_reports_requested_weight, started, CgroupMove,
    MoveStatus, StepOutcome,
};
use crate::applier::io_weight::{
    effective_cgroup_weight, effective_weight, ionice_to_io_weight,
};
use crate::config::{Config, ConfigView};
use crate::platform::linux::scheduler::{SchedulerView, ScxScheduler, Strategy};
use crate::rules::matcher::{ContextView, ProcessContext};
use crate::rules::types::{ResolvedRule, ResolvedRuleView};
use crate::text::{copy_text, text_in};

verus! {

/// Summary of what was actually done for one process event.
#[derive(Debug)]
pub struct ApplyResult {
    pub dry_run: bool,
    pub nice_applied: Option<i32>,
    pub io_weight_applied: Option<u16>,
    pub oom_applied: Option<i32>,
    pub cgroup_applied: Option<String>,
}

/// What an [`ApplyResult`] holds.
#[verifier::ext_equal]
pub struct ApplyResultView {
    pub dry_run: bool,
    pub nice_applied: Option<i32>,
    pub io_weight_applied: Option<u16>,
    pub oom_applied: Option<i32>,
    pub cgroup_applied: Option<Seq<char>>,
}

impl View for ApplyResult {
    type V = ApplyResultView;

    open spec fn view(&self) -> ApplyResultView {
        ApplyResultView {
            dry_run: self.dry_run,
            nice_applied: self.nice_applied,
            io_weight_applied: self.io_weight_applied,
            oom_applied: self.oom_applied,
            cgroup_applied: text_in(self.cgroup_applied),
        }
    }
}

/// The result where nothing was done.
pub open spec fn nothing_applied() -> ApplyResultView {
    ApplyResultView {
        dry_run: false,
        nice_applied: None,
        io_weight_applied: None,
        oom_applied: None,
        cgroup_applied: None,
    }
}

impl Default for ApplyResult {
    fn default() -> (r: ApplyResult)
        ensures
            r@ == nothing_applied(),
    {
        ApplyResult {
            dry_run: false,
            nice_applied: None,
            io_weight_applied: None,
            oom_applied: None,
            cgroup_applied: None,
        }
    }
}

/// A change of a process, or the check before the first one.
#[derive(Debug)]
pub enum ApplyAction {
    /// Read the start time that the PID has now.
    CheckPid,
    /// Set the niceness.
    SetNice(i32),
    /// Write `oom_score_adj`.
    SetOom(i32),
    /// Move to a cgroup and set its weights.
    MoveToCgroup { cgroup: String, weight: Option<u64>, io_weight: Option<u16> },
}

/// What an [`ApplyAction`] does.
#[verifier::ext_equal]
pub enum ActionView {
    CheckPid,
    SetNice(i32),
    SetOom(i32),
    MoveToCgroup { cgroup: Seq<char>, weight: Option<u64>, io_weight: Option<u16> },
}

impl View for ApplyAction {
    type V = ActionView;

    open spec fn view(&self) -> ActionView {
        match self {
            ApplyAction::CheckPid => ActionView::CheckPid,
            ApplyAction::SetNice(n) => ActionView::SetNice(*n),
            ApplyAction::SetOom(n) => ActionView::SetOom(*n),
            ApplyAction::MoveToCgroup { cgroup, weight, io_weight } => ActionView::MoveToCgroup {
                cgroup: cgroup@,
                weight: *weight,
                io_weight: *io_weight,
            },
        }
    }
}

/// What each action of a sequence does.
pub open spec fn action_views(actions: Seq<ApplyAction>) -> Seq<ActionView> {
    actions.map_values(|a: ApplyAction| a@)
}

/// How an action went.
#[derive(Clone, Copy, Debug, PartialEq, Eq, Structural)]
pub enum ApplyEvent {
    /// The start time that the PID has now, or `None` where the process is gone.
    StartTime(Option<u64>),
    /// The niceness or `oom_score_adj` was set.
    Done,
    /// The process was moved, and this IO weight was set.
    Moved(Option<u16>),
    /// The action failed.
    Failed,
}

/// How a move went, as an event of the application that it belongs to.
pub open spec fn event_of_move(status: MoveStatus) -> ApplyEvent {
    match status {
        MoveStatus::Moved(set) => ApplyEvent::Moved(set),
        MoveStatus::Pending => ApplyEvent::Failed,
        MoveStatus::Failed => ApplyEvent::Failed,
    }
}

impl ApplyEvent {
    /// How a move went; one that was not carried through has failed.
    pub fn from_move(done: &CgroupMove) -> (r: ApplyEvent)
        ensures
            r == event_of_move(done@.status()),
    {
        match done.status() {
            MoveStatus::Moved(set) => ApplyEvent::Moved(set),
            MoveStatus::Pending => ApplyEvent::Failed,
            MoveStatus::Failed => ApplyEvent::Failed,
        }
    }
}

/// `n`, or the bound that it lies beyond.
pub open spec fn clamped(n: i32, low: int, high: int) -> i32 {
    if n < low {
        low as i32
    } else if n > high {
        high as i32
    } else {
        n
    }
}

fn clamp(n: i32, low: i32, high: i32) -> (r: i32)
    ensures
        r == clamped(n, low as int, high as int),
{
    if n < low {
        low
    } else if n > high {
        high
    } else {
        n
    }
}

/// The niceness to set, within the kernel's bounds.
pub open spec fn nice_actions(config: ConfigView, rule: ResolvedRuleView) -> Seq<ActionView> {
    match rule.nice {
        Some(n) => if config.apply_nice {
            seq![ActionView::SetNice(clamped(n, -20, 19))]
        } else {
            seq![]
        },
        None => seq![],
    }
}

/// The `oom_score_adj` to write, within the kernel's bounds.
pub open spec fn oom_actions(config: ConfigView, rule: ResolvedRuleView) -> Seq<ActionView> {
    match rule.oom_score_adj {
        Some(n) => if config.apply_oom {
            seq![ActionView::SetOom(clamped(n, -1000, 1000))]
        } else {
            seq![]
        },
        None => seq![],
    }
}

/// The IO weight that a rule asks for.
pub open spec fn requested_io_weight(config: ConfigView, rule: ResolvedRuleView) -> Option<u16> {
    if config.apply_ionice {
        io_weight::io_weight(rule.ioclass, rule.ionice)
    } else {
        None
    }
}

/// The move to make.
pub open spec fn cgroup_actions(
    config: ConfigView,
    rule: ResolvedRuleView,
    strategy: Strategy,
) -> Seq<ActionView> {
    match rule.cgroup {
        Some(cgroup) => if config.apply_cgroup {
            seq![
                ActionView::MoveToCgroup {
                    cgroup,
                    weight: effective_weight(strategy, rule.cgroup_weight),
                    io_weight: requested_io_weight(config, rule),
                },
            ]
        } else {
            seq![]
        },
        None => seq![],
    }
}

/// All that is to be done for a rule, in order: nothing in a dry run, and otherwise the check
/// that the PID is still the same process before any change.
pub open spec fn actions_for(
    config: ConfigView,
    rule: ResolvedRuleView,
    scheduler: SchedulerView,
) -> Seq<ActionView> {
    if config.dry_run {
        seq![]
    } else {
        seq![ActionView::CheckPid] + nice_actions(config, rule) + oom_actions(config, rule)
            + cgroup_actions(config, rule, scheduler.strategy())
    }
}

/// The application of a rule to a process, as far as it has come.
pub struct Application {
    rule: String,
    start_time_ticks: u64,
    actions: Vec<ApplyAction>,
    next: usize,
    stale: bool,
    result: ApplyResult,
    skips_io_weight: bool,
    layered_target: Option<String>,
}

/// What an [`Application`] holds: the name of the rule, the start time of the process that it
/// matched, what is to be done, how much of it is behind, whether the process is gone, and what
/// was done; also whether the rule's IO priority comes to nothing for want of a cgroup to set it
/// on, and where a layer JSON belongs.
#[verifier::ext_equal]
pub struct ApplicationView {
    pub rule: Seq<char>,
    pub start_time_ticks: u64,
    pub actions: Seq<ActionView>,
    pub next: int,
    pub stale: bool,
    pub result: ApplyResultView,
    pub skips_io_weight: bool,
    pub layered_target: Option<Seq<char>>,
}

impl View for Application {
    type V = ApplicationView;

    closed spec fn view(&self) -> ApplicationView {
        ApplicationView {
            rule: self.rule@,
            start_time_ticks: self.start_time_ticks,
            actions: action_views(self.actions@),
            next: self.next as int,
            stale: self.stale,
            result: self.result@,
            skips_io_weight: self.skips_io_weight,
            layered_target: text_in(self.layered_target),
        }
    }
}

/// The result after an action went like this.
pub open spec fn result_after(
    result: ApplyResultView,
    action: ActionView,
    event: ApplyEvent,
) -> ApplyResultView {
    match (action, event) {
        (ActionView::SetNice(n), ApplyEvent::Done) => ApplyResultView {
            nice_applied: Some(n),
            ..result
        },
        (ActionView::SetOom(n), ApplyEvent::Done) => ApplyResultView {
            oom_applied: Some(n),
            ..result
        },
        (ActionView::MoveToCgroup { cgroup, .. }, ApplyEvent::Moved(weight)) => ApplyResultView {
            cgroup_applied: Some(cgroup),
            io_weight_applied: weight,
            ..result
        },
        _ => result,
    }
}

impl ApplicationView {
    /// Whether there is nothing left to do.
    pub open spec fn is_over(self) -> bool {
        self.stale || self.next >= self.actions.len()
    }

    /// The application after its current action went like this: a process that is gone ends it,
    /// while an action that failed leaves the others to be done.
    pub open spec fn recorded(self, event: ApplyEvent) -> ApplicationView {
        if self.is_over() {
            self
        } else {
            ApplicationView {
                next: self.next + 1,
                stale: self.actions[self.next] is CheckPid && event != ApplyEvent::StartTime(
                    Some(self.start_time_ticks),
                ),
                result: result_after(self.result, self.actions[self.next], event),
                ..self
            }
        }
    }
}

/// Whether a rule's IO priority comes to nothing for want of a cgroup to set it on.
pub open spec fn io_weight_skipped(config: ConfigView, rule: ResolvedRuleView) -> bool {
    requested_io_weight(config, rule) is Some && !(config.apply_cgroup && rule.cgroup is Some)
}

/// Where a layer JSON belongs, where the scheduler takes layers. What such a file holds is not
/// defined here: no action writes it.
pub open spec fn layered_target_of(config: ConfigView, scheduler: SchedulerView) -> Option<
    Seq<char>,
> {
    if scheduler.strategy() == Strategy::LayeredJson {
        config.layered_export_path
    } else {
        None
    }
}

/// The application of a rule before its first action.
pub open spec fn application_of(
    config: ConfigView,
    ctx: ContextView,
    rule: ResolvedRuleView,
    scheduler: SchedulerView,
) -> ApplicationView {
    ApplicationView {
        rule: rule.name,
        start_time_ticks: ctx.start_time_ticks,
        actions: actions_for(config, rule, scheduler),
        next: 0,
        stale: false,
        result: ApplyResultView { dry_run: config.dry_run, ..nothing_applied() },
        skips_io_weight: io_weight_skipped(config, rule),
        layered_target: layered_target_of(config, scheduler),
    }
}

/// Applies rules as the settings allow.
pub struct Applier {
    config: Config,
}

impl View for Applier {
    type V = ConfigView;

    closed spec fn view(&self) -> ConfigView {
        self.config@
    }
}

impl Applier {
    /// An applier with these settings.
    pub fn new(config: Config) -> (r: Applier)
        ensures
            r@ == config@,
    {
        Applier { config }
    }

    fn io_weight_for(&self, rule: &ResolvedRule) -> (r: Option<u16>)
        ensures
            r == requested_io_weight(self@, rule@),
    {
        if self.config.apply_ionice {
            ionice_to_io_weight(rule.ioclass, rule.ionice)
        } else {
            None
        }
    }

    /// Apply a rule to a process: the actions to perform, one after the other.
    pub fn apply(&self, ctx: &ProcessContext, rule: &ResolvedRule, scheduler: &ScxScheduler) -> (r:
        Application)
        ensures
            r@ == application_of(self@, ctx@, rule@, scheduler@),
    {
        let mut result = ApplyResult::default();
        let mut actions: Vec<ApplyAction> = Vec::new();
        let strategy = scheduler.strategy();
        let io_weight = self.io_weight_for(rule);
        let skips_io_weight = io_weight.is_some() && !(self.config.apply_cgroup
            && rule.cgroup.is_some());
        let layered_target = if matches!(strategy, Strategy::LayeredJson) {
            copy_text(&self.config.layered_export_path)
        } else {
            None
        };
        if self.config.dry_run {
            result.dry_run = true;
            assert(action_views(actions@) =~= seq![]);
            return Application {
                rule: rule.name.clone(),
                start_time_ticks: ctx.start_time_ticks,
                actions,
                next: 0,
                stale: false,
                result,
                skips_io_weight,
                layered_target,
            };
        }
        actions.push(ApplyAction::CheckPid);
        if self.config.apply_nice {
            if let Some(nice) = rule.nice {
                actions.push(ApplyAction::SetNice(clamp(nice, -20, 19)));
            }
        }
        assert(action_views(actions@) =~= seq![ActionView::CheckPid] + nice_actions(self@, rule@));
        let ghost before_oom = action_views(actions@);
        if self.config.apply_oom {
            if let Some(oom) = rule.oom_score_adj {
                actions.push(ApplyAction::SetOom(clamp(oom, -1000, 1000)));
            }
        }
        assert(action_views(actions@) =~= before_oom + oom_actions(self@, rule@));
        let ghost before_cgroup = action_views(actions@);
        if self.config.apply_cgroup {
            if let Some(cgroup) = &rule.cgroup {
                let weight = effective_cgroup_weight(strategy, rule.cgroup_weight);
                actions.push(
                    ApplyAction::MoveToCgroup { cgroup: cgroup.clone(), weight, io_weight },
                );
            }
        }
        assert(action_views(actions@) =~= before_cgroup + cgroup_actions(
            self@,
            rule@,
            scheduler@.strategy(),
        ));
        Application {
            rule: rule.name.clone(),
            start_time_ticks: ctx.start_time_ticks,
            actions,
            next: 0,
            stale: false,
            result,
            skips_io_weight,
            layered_target,
        }
    }
}

impl Application {
    /// The action to perform next.
    pub fn current(&self) -> (r: Option<&ApplyAction>)
        ensures
            match r {
                Some(action) => !self@.is_over() && action@ == self@.actions[self@.next],
                None => self@.is_over(),
            },
    {
        if self.stale || self.next >= self.actions.len() {
            None
        } else {
            Some(&self.actions[self.next])
        }
    }

    /// Record how the current action went.
    pub fn record(&mut self, event: ApplyEvent)
        ensures
            final(self)@ == old(self)@.recorded(event),
    {
        if self.stale || self.next >= self.actions.len() {
            return ;
        }
        match &self.actions[self.next] {
            ApplyAction::CheckPid => {
                let alive = match event {
                    ApplyEvent::StartTime(Some(ticks)) => ticks == self.start_time_ticks,
                    _ => false,
                };
                self.stale = !alive;
            },
            ApplyAction::SetNice(nice) => {
                if matches!(event, ApplyEvent::Done) {
                    self.result.nice_applied = Some(*nice);
                }
            },
            ApplyAction::SetOom(oom) => {
                if matches!(event, ApplyEvent::Done) {
                    self.result.oom_applied = Some(*oom);
                }
            },
            ApplyAction::MoveToCgroup { cgroup, .. } => {
                if let ApplyEvent::Moved(weight) = event {
                    self.result.cgroup_applied = Some(cgroup.clone());
                    self.result.io_weight_applied = weight;
                }
            },
        }
        self.next = self.next + 1;
    }

    /// The name of the rule.
    pub fn rule_name(&self) -> (r: &str)
        ensures
            r@ == self@.rule,
    {
        self.rule.as_str()
    }

    /// Whether the rule's IO priority comes to nothing for want of a cgroup to set it on.
    pub fn skips_io_weight(&self) -> (r: bool)
        ensures
            r == self@.skips_io_weight,
    {
        self.skips_io_weight
    }

    /// Where a layer JSON belongs, where the scheduler takes layers.
    pub fn layered_target(&self) -> (r: Option<String>)
        ensures
            text_in(r) == self@.layered_target,
    {
        copy_text(&self.layered_target)
    }

    /// Whether the process was gone before anything could be done.
    pub fn is_stale(&self) -> (r: bool)
        ensures
            r == self@.stale,
    {
        self.stale
    }

    /// What was done.
    pub fn into_result(self) -> (r: ApplyResult)
        ensures
            r@ == self@.result,
    {
        self.result
    }
}

/// A dry run does nothing and says so.
pub proof fn law_dry_run_does_nothing(
    config: ConfigView,
    ctx: ContextView,
    rule: ResolvedRuleView,
    scheduler: SchedulerView,
)
    requires
        config.dry_run,
    ensures
        application_of(config, ctx, rule, scheduler).is_over(),
        application_of(config, ctx, rule, scheduler).result == (ApplyResultView {
            dry_run: true,
            ..nothing_applied()
        }),
{
}

/// A process that is gone, or whose PID was taken over by another one, is left alone.
pub proof fn law_gone_process_is_left_alone(
    config: ConfigView,
    ctx: ContextView,
    rule: ResolvedRuleView,
    scheduler: SchedulerView,
    event: ApplyEvent,
)
    requires
        !config.dry_run,
        event != ApplyEvent::StartTime(Some(ctx.start_time_ticks)),
    ensures
        application_of(config, ctx, rule, scheduler).recorded(event).is_over(),
        application_of(config, ctx, rule, scheduler).recorded(event).result == nothing_applied(),
{
    assert(actions_for(config, rule, scheduler)[0] == ActionView::CheckPid);
}

/// Whether an action is one that the settings and the rule call for, with values in bounds.
pub open spec fn is_called_for(
    action: ActionView,
    config: ConfigView,
    rule: ResolvedRuleView,
    strategy: Strategy,
) -> bool {
    match action {
        ActionView::CheckPid => true,
        ActionView::SetNice(n) => config.apply_nice && rule.nice is Some && -20 <= n <= 19,
        ActionView::SetOom(n) => config.apply_oom && rule.oom_score_adj is Some && -1000 <= n
            <= 1000,
        ActionView::MoveToCgroup { cgroup, weight, io_weight } => {
            &&& config.apply_cgroup
            &&& rule.cgroup == Some(cgroup)
            &&& weight is Some ==> strategy == Strategy::NiceAndWeight && weight
                == rule.cgroup_weight
            &&& io_weight is Some ==> config.apply_ionice && rule.ioclass is Some
        },
    }
}

/// What is switched off in the settings or left open in the rule is not done, values stay within
/// the kernel's bounds, and weights are only set together with a cgroup.
pub proof fn law_only_what_is_called_for(
    config: ConfigView,
    rule: ResolvedRuleView,
    scheduler: SchedulerView,
)
    ensures
        forall|i: int|
            0 <= i < actions_for(config, rule, scheduler).len() ==> is_called_for(
                #[trigger] actions_for(config, rule, scheduler)[i],
                config,
                rule,
                scheduler.strategy(),
            ),
{
}

/// An action that failed leaves the others to be done.
pub proof fn law_failure_stops_nothing(a: ApplicationView, event: ApplyEvent)
    requires
        !a.is_over(),
        !(a.actions[a.next] is CheckPid),
    ensures
        a.recorded(event).next == a.next + 1,
        !a.recorded(event).stale,
        event == ApplyEvent::Failed ==> a.recorded(event).result == a.result,
{
}

/// An application after its first `n` actions went like this.
pub open spec fn after_events(a: ApplicationView, events: Seq<ApplyEvent>, n: int) -> ApplicationView
    decreases n,
{
    if n <= 0 {
        a
    } else {
        after_events(a, events, n - 1).recorded(events[n - 1])
    }
}

/// Whether one of the first `n` actions was this one and succeeded.
pub open spec fn was_done(
    actions: Seq<ActionView>,
    events: Seq<ApplyEvent>,
    action: ActionView,
    event: ApplyEvent,
    n: int,
) -> bool {
    exists|i: int| 0 <= i < n && #[trigger] actions[i] == action && events[i] == event
}

proof fn lemma_was_done_grows(
    actions: Seq<ActionView>,
    events: Seq<ApplyEvent>,
    action: ActionView,
    event: ApplyEvent,
    n: int,
)
    requires
        0 < n,
    ensures
        was_done(actions, events, action, event, n) == (was_done(
            actions,
            events,
            action,
            event,
            n - 1,
        ) || actions[n - 1] == action && events[n - 1] == event),
{
    if actions[n - 1] == action && events[n - 1] == event {
        assert(was_done(actions, events, action, event, n));
    }
}

/// The kinds of actions come in a fixed order, each at most once.
proof fn lemma_one_of_each(
    config: ConfigView,
    rule: ResolvedRuleView,
    scheduler: SchedulerView,
    i: int,
    j: int,
)
    requires
        0 <= i < j < actions_for(config, rule, scheduler).len(),
    ensures
        ({
            let actions = actions_for(config, rule, scheduler);
            &&& !(actions[j] is CheckPid)
            &&& !(actions[i] is SetNice && actions[j] is SetNice)
            &&& !(actions[i] is SetOom && actions[j] is SetOom)
            &&& !(actions[i] is MoveToCgroup && actions[j] is MoveToCgroup)
        }),
{
}

/// The result tells what was done and nothing else: a value is reported exactly where the action
/// that sets it succeeded.
pub proof fn law_result_tells_what_was_done(
    config: ConfigView,
    ctx: ContextView,
    rule: ResolvedRuleView,
    scheduler: SchedulerView,
    events: Seq<ApplyEvent>,
    n: int,
)
    requires
        0 <= n <= events.len() == actions_for(config, rule, scheduler).len(),
        events.len() > 0 ==> events[0] == ApplyEvent::StartTime(Some(ctx.start_time_ticks)),
    ensures
        ({
            let actions = actions_for(config, rule, scheduler);
            let end = after_events(application_of(config, ctx, rule, scheduler), events, n);
            &&& end.actions == actions && end.next == n && !end.stale
            &&& end.start_time_ticks == ctx.start_time_ticks
            &&& forall|v: i32|
                end.result.nice_applied == Some(v) <==> #[trigger] was_done(
                    actions,
                    events,
                    ActionView::SetNice(v),
                    ApplyEvent::Done,
                    n,
                )
            &&& forall|v: i32|
                end.result.oom_applied == Some(v) <==> #[trigger] was_done(
                    actions,
                    events,
                    ActionView::SetOom(v),
                    ApplyEvent::Done,
                    n,
                )
            &&& forall|cgroup: Seq<char>, weight: Option<u64>, io: Option<u16>, set: Option<u16>|
                #[trigger] was_done(
                    actions,
                    events,
                    ActionView::MoveToCgroup { cgroup, weight, io_weight: io },
                    ApplyEvent::Moved(set),
                    n,
                ) ==> end.result.cgroup_applied == Some(cgroup) && end.result.io_weight_applied
                    == set
            &&& end.result.cgroup_applied is Some ==> exists|i: int|
                0 <= i < n && #[trigger] actions[i] is MoveToCgroup && events[i] is Moved
            &&& end.result.io_weight_applied is Some ==> end.result.cgroup_applied is Some
        }),
    decreases n,
{
    let actions = actions_for(config, rule, scheduler);
    let start = application_of(config, ctx, rule, scheduler);
    if n > 0 {
        law_result_tells_what_was_done(config, ctx, rule, scheduler, events, n - 1);
        let before = after_events(start, events, n - 1);
        let end = after_events(start, events, n);
        assert forall|i: int| 0 <= i < n - 1 implies {
            &&& !(actions[n - 1] is CheckPid)
            &&& !(#[trigger] actions[i] is SetNice && actions[n - 1] is SetNice)
            &&& !(actions[i] is SetOom && actions[n - 1] is SetOom)
            &&& !(actions[i] is MoveToCgroup && actions[n - 1] is MoveToCgroup)
        } by {
            lemma_one_of_each(config, rule, scheduler, i, n - 1);
        }
        if n == 1 {
            assert(actions[0] == ActionView::CheckPid);
        } else {
            lemma_one_of_each(config, rule, scheduler, 0, n - 1);
        }
        assert forall|v: i32|
            end.result.nice_applied == Some(v) <==> #[trigger] was_done(
                actions,
                events,
                ActionView::SetNice(v),
                ApplyEvent::Done,
                n,
            ) by {
            lemma_was_done_grows(actions, events, ActionView::SetNice(v), ApplyEvent::Done, n);
            assert(before.result.nice_applied == Some(v) <==> was_done(
                actions,
                events,
                ActionView::SetNice(v),
                ApplyEvent::Done,
                n - 1,
            ));
        }
        assert forall|v: i32|
            end.result.oom_applied == Some(v) <==> #[trigger] was_done(
                actions,
                events,
                ActionView::SetOom(v),
                ApplyEvent::Done,
                n,
            ) by {
            lemma_was_done_grows(actions, events, ActionView::SetOom(v), ApplyEvent::Done, n);
            assert(before.result.oom_applied == Some(v) <==> was_done(
                actions,
                events,
                ActionView::SetOom(v),
                ApplyEvent::Done,
                n - 1,
            ));
        }
        assert forall|cgroup: Seq<char>, weight: Option<u64>, io: Option<u16>, set: Option<u16>|
            #[trigger] was_done(
                actions,
                events,
                ActionView::MoveToCgroup { cgroup, weight, io_weight: io },
                ApplyEvent::Moved(set),
                n,
            ) implies end.result.cgroup_applied == Some(cgroup) && end.result.io_weight_applied
            == set by {
            let action = ActionView::MoveToCgroup { cgroup, weight, io_weight: io };
            lemma_was_done_grows(actions, events, action, ApplyEvent::Moved(set), n);
        }
    }
}

/// Whether an event can come from performing the action: a move reports what a planned move to
/// that cgroup comes to, for some user and process, and some outcomes of its steps.
pub open spec fn can_come_from(event: ApplyEvent, action: ActionView) -> bool {
    match action {
        ActionView::MoveToCgroup { cgroup, weight, io_weight } => event is Moved ==> exists|
            uid: u32,
            pid: u32,
            outcomes: Seq<StepOutcome>,
        |
            event == event_of_move(
                #[trigger] after_outcomes(
                    started(uid, pid, cgroup_components(cgroup)->Ok_0, weight, io_weight),
                    outcomes,
                    outcomes.len() as int,
                ).status(),
            ),
        _ => true,
    }
}

/// The IO weight that an application reports is the one that the settings and the rule ask for,
/// or none.
pub proof fn law_reported_io_weight_was_requested(
    config: ConfigView,
    ctx: ContextView,
    rule: ResolvedRuleView,
    scheduler: SchedulerView,
    events: Seq<ApplyEvent>,
    n: int,
)
    requires
        0 <= n <= events.len() <= actions_for(config, rule, scheduler).len(),
        forall|i: int|
            0 <= i < n ==> can_come_from(
                #[trigger] events[i],
                actions_for(config, rule, scheduler)[i],
            ),
    ensures
        ({
            let end = after_events(application_of(config, ctx, rule, scheduler), events, n);
            &&& end.actions == actions_for(config, rule, scheduler)
            &&& end.stale || end.next == n
            &&& end.result.io_weight_applied is None || end.result.io_weight_applied
                == requested_io_weight(config, rule)
        }),
    decreases n,
{
    if n > 0 {
        law_reported_io_weight_was_requested(config, ctx, rule, scheduler, events, n - 1);
        let actions = actions_for(config, rule, scheduler);
        let action = actions[n - 1];
        assert(can_come_from(events[n - 1], action));
        law_only_what_is_called_for(config, rule, scheduler);
        assert(is_called_for(action, config, rule, scheduler.strategy()));
        match (action, events[n - 1]) {
            (ActionView::MoveToCgroup { cgroup, weight, io_weight }, ApplyEvent::Moved(set)) => {
                assert(io_weight == requested_io_weight(config, rule));
                let parts = cgroup_components(cgroup)->Ok_0;
                let (uid, pid, outcomes) = choose|
                    uid: u32,
                    pid: u32,
                    outcomes: Seq<StepOutcome>,
                |
                    events[n - 1] == event_of_move(
                        #[trigger] after_outcomes(
                            started(uid, pid, parts, weight, io_weight),
                            outcomes,
                            outcomes.len() as int,
                        ).status(),
                    );
                law_move_reports_requested_weight(
                    uid,
                    pid,
                    parts,
                    weight,
                    io_weight,
                    outcomes,
                    outcomes.len() as int,
                );
            },
            _ => {},
        }
    }
}

} // verus!
