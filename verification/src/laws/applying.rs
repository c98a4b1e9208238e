//! Applying: which actions a rule leads to, with which values, and what comes of them.

use vstd::prelude::*;

use crate::applier::cgroup::MoveStatus;
use crate::applier::io_weight::{io_weight, level_of};
use crate::applier::{
    actions_for, application_of, cgroup_actions, event_of_move, nice_actions, oom_actions,
    result_after, ActionView, ApplicationView, ApplyEvent, ApplyResultView,
};
use crate::config::ConfigView;
use crate::platform::linux::scheduler::SchedulerView;
use crate::rules::matcher::ContextView;
use crate::rules::types::{IoClass, ResolvedRuleView};

verus! {

proof fn lemma_contains(
    config: ConfigView,
    rule: ResolvedRuleView,
    scheduler: SchedulerView,
    action: ActionView,
)
    requires
        !config.dry_run,
    ensures
        actions_for(config, rule, scheduler).contains(action) <==> {
            ||| action is CheckPid
            ||| nice_actions(config, rule).contains(action)
            ||| oom_actions(config, rule).contains(action)
            ||| cgroup_actions(config, rule, scheduler.strategy()).contains(action)
        },
{
    let n = nice_actions(config, rule);
    let o = oom_actions(config, rule);
    let c = cgroup_actions(config, rule, scheduler.strategy());
    let all = actions_for(config, rule, scheduler);
    assert(all[0] == ActionView::CheckPid);
    if n.contains(action) {
        let i = choose|i: int| 0 <= i < n.len() && n[i] == action;
        assert(all[1 + i] == action);
    }
    if o.contains(action) {
        let i = choose|i: int| 0 <= i < o.len() && o[i] == action;
        assert(all[1 + n.len() + i] == action);
    }
    if c.contains(action) {
        let i = choose|i: int| 0 <= i < c.len() && c[i] == action;
        assert(all[1 + n.len() + o.len() + i] == action);
    }
    if all.contains(action) {
        let i = choose|i: int| 0 <= i < all.len() && all[i] == action;
        if 1 <= i < 1 + n.len() {
            assert(n[i - 1] == action);
        } else if 1 + n.len() <= i < 1 + n.len() + o.len() {
            assert(o[i - 1 - n.len()] == action);
        } else if i >= 1 + n.len() + o.len() {
            assert(c[i - 1 - n.len() - o.len()] == action);
        }
    }
}

/// The niceness that is set is the rule's own wherever the kernel takes it, and otherwise the
/// nearest that it takes; it is set exactly where the rule has one, the settings allow it and it
/// is no dry run.
pub proof fn law_niceness_is_the_rules_own(
    config: ConfigView,
    rule: ResolvedRuleView,
    scheduler: SchedulerView,
    v: i32,
)
    ensures
        actions_for(config, rule, scheduler).contains(ActionView::SetNice(v)) <==> {
            &&& !config.dry_run
            &&& config.apply_nice
            &&& rule.nice matches Some(n) && {
                ||| -20 <= n <= 19 && v == n
                ||| n < -20 && v == -20
                ||| n > 19 && v == 19
            }
        },
{
    if !config.dry_run {
        lemma_contains(config, rule, scheduler, ActionView::SetNice(v));
        if config.apply_nice && rule.nice is Some {
            assert(nice_actions(config, rule)[0] is SetNice);
        }
    }
}

/// The adjustment that is set is the rule's own wherever the kernel takes it, and otherwise the
/// nearest that it takes; it is set exactly where the rule has one, the settings allow it and it
/// is no dry run.
pub proof fn law_oom_adjustment_is_the_rules_own(
    config: ConfigView,
    rule: ResolvedRuleView,
    scheduler: SchedulerView,
    v: i32,
)
    ensures
        actions_for(config, rule, scheduler).contains(ActionView::SetOom(v)) <==> {
            &&& !config.dry_run
            &&& config.apply_oom
            &&& rule.oom_score_adj matches Some(n) && {
                ||| -1000 <= n <= 1000 && v == n
                ||| n < -1000 && v == -1000
                ||| n > 1000 && v == 1000
            }
        },
{
    if !config.dry_run {
        lemma_contains(config, rule, scheduler, ActionView::SetOom(v));
        if config.apply_oom && rule.oom_score_adj is Some {
            assert(oom_actions(config, rule)[0] is SetOom);
        }
    }
}

/// The process is moved exactly where the rule has a cgroup, the settings allow it and it is no
/// dry run: to that cgroup, with the rule's weight where the scheduler heeds weights, and with the
/// weight for the rule's IO class where the settings allow that.
pub proof fn law_move_is_the_rules_own(
    config: ConfigView,
    rule: ResolvedRuleView,
    scheduler: SchedulerView,
    cgroup: Seq<char>,
    weight: Option<u64>,
    io: Option<u16>,
)
    ensures
        actions_for(config, rule, scheduler).contains(
            ActionView::MoveToCgroup { cgroup, weight, io_weight: io },
        ) <==> {
            &&& !config.dry_run
            &&& config.apply_cgroup
            &&& rule.cgroup == Some(cgroup)
            &&& weight == if scheduler is Layered || scheduler is NoScheduler {
                None
            } else {
                rule.cgroup_weight
            }
            &&& io == if config.apply_ionice {
                io_weight(rule.ioclass, rule.ionice)
            } else {
                None
            }
        },
{
    if !config.dry_run {
        lemma_contains(
            config,
            rule,
            scheduler,
            ActionView::MoveToCgroup { cgroup, weight, io_weight: io },
        );
        if config.apply_cgroup && rule.cgroup is Some {
            assert(cgroup_actions(config, rule, scheduler.strategy())[0] is MoveToCgroup);
        }
    }
}

/// The place of an action in the order in which actions are done.
pub open spec fn turn_of(action: ActionView) -> int {
    match action {
        ActionView::CheckPid => 0,
        ActionView::SetNice(_) => 1,
        ActionView::SetOom(_) => 2,
        ActionView::MoveToCgroup { .. } => 3,
    }
}

/// Outside of a dry run the process is checked first; niceness, adjustment and move follow in
/// this order, each at most once.
pub proof fn law_actions_are_in_order(
    config: ConfigView,
    rule: ResolvedRuleView,
    scheduler: SchedulerView,
    i: int,
    j: int,
)
    requires
        0 <= i < j < actions_for(config, rule, scheduler).len(),
    ensures
        actions_for(config, rule, scheduler)[0] is CheckPid,
        turn_of(actions_for(config, rule, scheduler)[i]) < turn_of(
            actions_for(config, rule, scheduler)[j],
        ),
{
    let n = nice_actions(config, rule);
    let o = oom_actions(config, rule);
    let c = cgroup_actions(config, rule, scheduler.strategy());
    let all = actions_for(config, rule, scheduler);
    assert(all == seq![ActionView::CheckPid] + n + o + c);
    lemma_turn(config, rule, scheduler, i);
    lemma_turn(config, rule, scheduler, j);
}

proof fn lemma_turn(
    config: ConfigView,
    rule: ResolvedRuleView,
    scheduler: SchedulerView,
    i: int,
)
    requires
        0 <= i < actions_for(config, rule, scheduler).len(),
    ensures
        ({
            let n = nice_actions(config, rule).len();
            let o = oom_actions(config, rule).len();
            let action = actions_for(config, rule, scheduler)[i];
            &&& n <= 1 && o <= 1
            &&& actions_for(config, rule, scheduler).len() <= n + o + 2
            &&& turn_of(action) == if i == 0 {
                0int
            } else if i < 1 + n {
                1
            } else if i < 1 + n + o {
                2
            } else {
                3
            }
        }),
{
}

/// The weight for an IO class lies on the line between the least and the greatest of the class,
/// rounded down: level zero has the greatest, level seven the least. No level counts as four, and
/// a level above seven as seven. A process without a class has no weight.
pub proof fn law_io_weight_falls_with_the_level(class: IoClass, level: Option<u8>)
    ensures
        io_weight(None, level) is None,
        io_weight(Some(IoClass::NoClass), level) is None,
        io_weight(Some(class), None) == io_weight(Some(class), Some(4)),
        level is Some && level->0 > 7 ==> io_weight(Some(class), level) == io_weight(
            Some(class),
            Some(7),
        ),
        level is Some && level->0 <= 7 && class != IoClass::NoClass ==> {
            let low: int = if class == IoClass::RealTime {
                800
            } else if class == IoClass::BestEffort {
                100
            } else {
                1
            };
            let high: int = if class == IoClass::RealTime {
                1000
            } else if class == IoClass::BestEffort {
                800
            } else {
                50
            };
            &&& io_weight(Some(class), level) is Some
            &&& 7 * (io_weight(Some(class), level)->0 - low) <= (7 - level->0) * (high - low)
            &&& (7 - level->0) * (high - low) < 7 * (io_weight(Some(class), level)->0 - low) + 7
        },
{
    if level is Some {
        let n = level->0;
        if n <= 7 {
            assert(level_of(level) == n);
            let up = 7 - n;
            assert(0 <= up * 200 / 7 <= 200);
            assert((7 - n) * (1000 - 800) == up * 200);
            assert((7 - n) * (800 - 100) == up * 700);
            assert((7 - n) * (50 - 1) == up * 49);
        }
    }
}

/// An application starts with nothing done, knows the process by its start time, tells that a
/// weight is left out exactly where one is asked for and there is no move to set it in, and has a
/// place for the layers exactly under the layered scheduler.
pub proof fn law_application_starts_fresh(
    config: ConfigView,
    ctx: ContextView,
    rule: ResolvedRuleView,
    scheduler: SchedulerView,
)
    ensures
        ({
            let a = application_of(config, ctx, rule, scheduler);
            &&& a.rule == rule.name
            &&& a.start_time_ticks == ctx.start_time_ticks
            &&& a.next == 0
            &&& !a.stale
            &&& a.result.dry_run == config.dry_run
            &&& a.result.nice_applied is None
            &&& a.result.io_weight_applied is None
            &&& a.result.oom_applied is None
            &&& a.result.cgroup_applied is None
            &&& a.skips_io_weight <==> config.apply_ionice && rule.ioclass is Some && rule.ioclass
                != Some(IoClass::NoClass) && (!config.apply_cgroup || rule.cgroup is None)
            &&& a.layered_target == if scheduler is Layered {
                config.layered_export_path
            } else {
                None
            }
        }),
{
}

/// A process that is still the one that was seen is worked on: the check ends nothing and leads to
/// the next action.
pub proof fn law_living_process_is_worked_on(a: ApplicationView)
    requires
        !a.is_over(),
        a.actions[a.next] is CheckPid,
    ensures
        a.recorded(ApplyEvent::StartTime(Some(a.start_time_ticks))) == (ApplicationView {
            next: a.next + 1,
            ..a
        }),
{
}

/// A move that placed the process is told with the IO weight that it set; one that failed, or
/// that was left before its end, is told as a failure.
pub proof fn law_moves_are_told_as_they_ended(set: Option<u16>)
    ensures
        event_of_move(MoveStatus::Moved(set)) == ApplyEvent::Moved(set),
        event_of_move(MoveStatus::Failed) == ApplyEvent::Failed,
        event_of_move(MoveStatus::Pending) == ApplyEvent::Failed,
{
}

/// The result gains exactly the value of the action that was done, and keeps what it had.
pub proof fn law_done_actions_are_recorded(
    result: ApplyResultView,
    n: i32,
    cgroup: Seq<char>,
    weight: Option<u64>,
    io: Option<u16>,
    set: Option<u16>,
)
    ensures
        result_after(result, ActionView::SetNice(n), ApplyEvent::Done) == (ApplyResultView {
            dry_run: result.dry_run,
            nice_applied: Some(n),
            io_weight_applied: result.io_weight_applied,
            oom_applied: result.oom_applied,
            cgroup_applied: result.cgroup_applied,
        }),
        result_after(result, ActionView::SetOom(n), ApplyEvent::Done) == (ApplyResultView {
            dry_run: result.dry_run,
            nice_applied: result.nice_applied,
            io_weight_applied: result.io_weight_applied,
            oom_applied: Some(n),
            cgroup_applied: result.cgroup_applied,
        }),
        result_after(
            result,
            ActionView::MoveToCgroup { cgroup, weight, io_weight: io },
            ApplyEvent::Moved(set),
        ) == (ApplyResultView {
            dry_run: result.dry_run,
            nice_applied: result.nice_applied,
            io_weight_applied: set,
            oom_applied: result.oom_applied,
            cgroup_applied: Some(cgroup),
        }),
{
}

} // verus!
