//! Commands: which task each stands for, and what is shown.

use vstd::prelude::*;

use crate::app::{
    check_line, class_name, explain_lines, profile_list, rule_lines, selection_hint, status_lines,
    target_pid, task_of, TaskView,
};
use crate::cli::{Commands, ProfileAction};
use crate::config::{ConfigView, ProfileKind};
use crate::laws::text::occurs_in;
use crate::numbers::{decimal_of, decimal_of_int, parsed_number};
use crate::platform::linux::scheduler::SchedulerView;
use crate::rules::matcher::ExplainView;
use crate::rules::types::{IoClass, ResolvedRuleView, RuleSetView};
use crate::rules::validator::resolved_up_to;
use crate::text::text_in;

verus! {

/// Each command leads to its own task, with what the command names and with the settings: the
/// daemon with all of them, the check with the directory that is given or else with theirs.
pub proof fn law_commands_lead_to_their_tasks(command: Commands, config: ConfigView)
    ensures
        command is Daemon ==> {
            &&& task_of(command, config) is Some
            &&& task_of(command, config)->0 is Serve
            &&& task_of(command, config)->0->Serve_0 == (ConfigView {
                dry_run: config.dry_run || command->dry_run,
                ..config
            })
        },
        command is Status ==> task_of(command, config) == Some(TaskView::Status(config)),
        command matches Commands::Explain { target } ==> task_of(command, config) == Some(
            TaskView::Explain { rules_dirs: config.rules_dirs, target: target@ },
        ),
        command matches Commands::Check { path } && path is Some ==> task_of(command, config)
            == Some(TaskView::Check { rules_dirs: seq![text_in(command->path)->0] }),
        command matches Commands::Check { path } && path is None ==> task_of(command, config)
            == Some(TaskView::Check { rules_dirs: config.rules_dirs }),
{
}

/// A profile command prints, or sets the profile that its name selects; only a name that selects
/// none is an error.
pub proof fn law_profile_commands(action: ProfileAction, config: ConfigView)
    ensures
        task_of(Commands::Profile { action }, config) is None <==> action is Select
            && ProfileKind::named(action->name@) is None,
        action is Get ==> task_of(Commands::Profile { action }, config) == Some(
            TaskView::Print(seq![config.profile.name_of()]),
        ),
        action is List ==> task_of(Commands::Profile { action }, config) == Some(
            TaskView::Print(profile_list()),
        ),
        action is Select && ProfileKind::named(action->name@) is Some ==> task_of(
            Commands::Profile { action },
            config,
        ) == Some(
            TaskView::SetProfile {
                profile: ProfileKind::named(action->name@)->0,
                lines: seq![selection_hint(action->name@)],
            },
        ),
{
}

/// The list of profiles has a heading and one line for each profile, which begins with its name.
pub proof fn law_profiles_are_listed_by_name()
    ensures
        profile_list().len() == 5,
        ("  "@ + ProfileKind::Default.name_of()).is_prefix_of(profile_list()[1]),
        ("  "@ + ProfileKind::Gaming.name_of()).is_prefix_of(profile_list()[2]),
        ("  "@ + ProfileKind::LowPower.name_of()).is_prefix_of(profile_list()[3]),
        ("  "@ + ProfileKind::Server.name_of()).is_prefix_of(profile_list()[4]),
{
    reveal_strlit("  ");
    reveal_strlit("default");
    reveal_strlit("gaming");
    reveal_strlit("lowpower");
    reveal_strlit("server");
    reveal_strlit("  default   - Balanced. No special boosting.");
    reveal_strlit("  gaming    - Boost interactive and game processes, demote background tasks.");
    reveal_strlit("  lowpower  - Prefer lower CPU pressure; demote non-critical tasks.");
    reveal_strlit("  server    - Prioritize daemons and network services.");
    let list = profile_list();
    assert(list[1].subrange(0, 9) =~= "  "@ + "default"@);
    assert(list[2].subrange(0, 8) =~= "  "@ + "gaming"@);
    assert(list[3].subrange(0, 10) =~= "  "@ + "lowpower"@);
    assert(list[4].subrange(0, 8) =~= "  "@ + "server"@);
}

/// The hint on a selected profile quotes its name.
pub proof fn law_hint_quotes_the_name(name: Seq<char>)
    ensures
        occurs_in(seq!['"'] + name + seq!['"'], selection_hint(name)),
{
    let lead = "Set 'profile = \""@;
    let tail = "\"' in your config file, then restart the daemon (SIGHUP reloads rules only; profile changes require a full restart)."@;
    reveal_strlit("Set 'profile = \"");
    reveal_strlit(
        "\"' in your config file, then restart the daemon (SIGHUP reloads rules only; profile changes require a full restart).",
    );
    assert(lead.last() == '"');
    assert(tail[0] == '"');
    let before = lead.drop_last();
    let after = tail.drop_first();
    assert(selection_hint(name) =~= before + (seq!['"'] + name + seq!['"']) + after);
}

/// A target is a process number exactly where it reads as one of 32 bits in decimal.
pub proof fn law_targets_are_numbers_or_names(target: Seq<char>)
    ensures
        target_pid(target) == parsed_number(target, 10, 0xffff_ffff),
{
}

/// How many of the lines on a rule's effects are there before one.
pub open spec fn count(b: bool) -> int {
    if b {
        1
    } else {
        0
    }
}

/// A matched rule is shown with its name, then each effect that it has on a line of its own, in a
/// fixed order, with the value behind its label; an IO level only beside a class.
pub proof fn law_matched_rule_is_shown_in_full(rule: ResolvedRuleView)
    ensures
        ({
            let lines = rule_lines(rule);
            let ionice = rule.ioclass is Some && rule.ionice is Some;
            let at_nice = 1int;
            let at_class = at_nice + count(rule.nice is Some);
            let at_level = at_class + count(rule.ioclass is Some);
            let at_oom = at_level + count(ionice);
            let at_cgroup = at_oom + count(rule.oom_score_adj is Some);
            let at_weight = at_cgroup + count(rule.cgroup is Some);
            &&& lines.len() == at_weight + count(rule.cgroup_weight is Some)
            &&& lines[0] == "✓ Matched rule:   "@ + rule.name
            &&& rule.nice is Some ==> lines[at_nice] == "  nice:           "@ + decimal_of_int(
                rule.nice->0 as int,
            )
            &&& rule.ioclass is Some ==> lines[at_class] == "  ioclass:        "@ + class_name(
                rule.ioclass->0,
            )
            &&& ionice ==> lines[at_level] == "  ionice:         "@ + decimal_of(
                rule.ionice->0 as nat,
            )
            &&& rule.oom_score_adj is Some ==> lines[at_oom] == "  oom_score_adj:  "@
                + decimal_of_int(rule.oom_score_adj->0 as int)
            &&& rule.cgroup is Some ==> lines[at_cgroup] == "  cgroup:         "@ + rule.cgroup->0
            &&& rule.cgroup_weight is Some ==> lines[at_weight] == "  cgroup_weight:  "@
                + decimal_of(rule.cgroup_weight->0 as nat)
        }),
{
}

/// The IO classes are shown by their names and have the numbers that the kernel gives them.
pub proof fn law_classes_have_names_and_numbers()
    ensures
        class_name(IoClass::NoClass) == "None"@ && IoClass::NoClass.linux_class() == 0,
        class_name(IoClass::RealTime) == "RealTime"@ && IoClass::RealTime.linux_class() == 1,
        class_name(IoClass::BestEffort) == "BestEffort"@ && IoClass::BestEffort.linux_class() == 2,
        class_name(IoClass::Idle) == "Idle"@ && IoClass::Idle.linux_class() == 3,
{
}

/// An explanation shows the rule that matched, or else, on one line, the target and how many rules
/// were tried.
pub proof fn law_explanations_show_the_match(e: ExplainView, target: Seq<char>)
    ensures
        e.matched is Some ==> explain_lines(e, target) == rule_lines(e.matched->0),
        e.matched is None ==> explain_lines(e, target).len() == 1 && explain_lines(e, target)[0]
            == "No rule matched '"@ + target + "' ("@ + decimal_of(e.attempts.len())
            + " rules checked)"@,
{
}

/// The status tells the scheduler, the strategy, the profile, how many presets and rules there are
/// and whether it is a dry run, in this order.
pub proof fn law_status_tells_the_settings(
    config: ConfigView,
    scheduler: SchedulerView,
    set: RuleSetView,
)
    ensures
        ({
            let lines = status_lines(config, scheduler, set);
            &&& lines.len() == 6
            &&& lines[0] == "Scheduler : "@ + scheduler.display()
            &&& lines[1] == "Strategy  : "@ + if scheduler is Layered {
                "LayeredJson"@
            } else if scheduler is NoScheduler {
                "BasicHints"@
            } else {
                "NiceAndWeight"@
            }
            &&& lines[2] == "Profile   : "@ + config.profile.name_of()
            &&& lines[3] == "Types     : "@ + decimal_of(set.types.dom().len())
            &&& lines[4] == "Rules     : "@ + decimal_of(set.rules.len())
            &&& config.dry_run ==> lines[5] == "Dry-run   : "@ + "true"@
            &&& !config.dry_run ==> lines[5] == "Dry-run   : "@ + "false"@
        }),
{
}

/// A check that found nothing tells how many presets there are and how many rules were resolved.
pub proof fn law_check_tells_the_numbers(set: RuleSetView)
    ensures
        occurs_in(
            decimal_of(set.types.dom().len()) + " types, "@ + decimal_of(
                resolved_up_to(set, set.rules.len() as int).len(),
            ) + " rules"@,
            check_line(set),
        ),
{
    let types = decimal_of(set.types.dom().len());
    let rules = decimal_of(resolved_up_to(set, set.rules.len() as int).len());
    let tail = " rules loaded and resolved without errors"@;
    reveal_strlit(" rules");
    reveal_strlit(" rules loaded and resolved without errors");
    let after = tail.skip(6);
    assert(tail =~= " rules"@ + after);
    let middle = types + " types, "@ + rules + " rules"@;
    assert(check_line(set) =~= "OK — "@ + middle + after);
}

} // verus!
