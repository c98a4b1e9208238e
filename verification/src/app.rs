//! The commands: what each of them needs, and the lines that it prints.

use vstd::prelude::*;

use crate::cli::{Cli, Commands, ProfileAction};
use crate::config::{Config, ConfigView, ProfileKind, UnknownProfile};
use crate::daemon::Daemon;
use crate::numbers::{
    decimal, decimal_i32, decimal_of, decimal_of_int, parse_number, parsed_number,
};
use crate::platform::linux::scheduler::{SchedulerView, ScxScheduler};
use crate::rules::matcher::{explanation, ExplainView, Matcher, ProcessContext};
use crate::rules::types::{IoClass, ResolvedRule, ResolvedRuleView, RuleSet, RuleSetView};
use crate::rules::validator::{refused_up_to, resolved_up_to, ValidationError};
use crate::text::{copy_text, text_in, texts};

verus! {

/// What a command needs to be carried out.
pub enum Task {
    /// Run the daemon.
    Serve(Daemon),
    /// Print these lines.
    Print(Vec<String>),
    /// Write this profile to the configuration file, then print these lines.
    SetProfile { profile: ProfileKind, lines: Vec<String> },
    /// Explain what matches the target.
    Explain { rules_dirs: Vec<String>, target: String },
    /// Print the status under these settings.
    Status(Config),
    /// Check the rules of these directories.
    Check { rules_dirs: Vec<String> },
}

/// What a [`Task`] is.
#[verifier::ext_equal]
pub enum TaskView {
    Serve(ConfigView),
    Print(Seq<Seq<char>>),
    SetProfile { profile: ProfileKind, lines: Seq<Seq<char>> },
    Explain { rules_dirs: Seq<Seq<char>>, target: Seq<char> },
    Status(ConfigView),
    Check { rules_dirs: Seq<Seq<char>> },
}

impl View for Task {
    type V = TaskView;

    open spec fn view(&self) -> TaskView {
        match self {
            Task::Serve(daemon) => TaskView::Serve(daemon@),
            Task::Print(lines) => TaskView::Print(texts(lines@)),
            Task::SetProfile { profile, lines } => TaskView::SetProfile {
                profile: *profile,
                lines: texts(lines@),
            },
            Task::Explain { rules_dirs, target } => TaskView::Explain {
                rules_dirs: texts(rules_dirs@),
                target: target@,
            },
            Task::Status(config) => TaskView::Status(config@),
            Task::Check { rules_dirs } => TaskView::Check { rules_dirs: texts(rules_dirs@) },
        }
    }
}

/// The profiles with what they are for.
pub open spec fn profile_list() -> Seq<Seq<char>> {
    seq![
        "Available profiles:"@,
        "  default   - Balanced. No special boosting."@,
        "  gaming    - Boost interactive and game processes, demote background tasks."@,
        "  lowpower  - Prefer lower CPU pressure; demote non-critical tasks."@,
        "  server    - Prioritize daemons and network services."@,
    ]
}

/// How to select a profile.
pub open spec fn selection_hint(name: Seq<char>) -> Seq<char> {
    "Set 'profile = \""@ + name
        + "\"' in your config file, then restart the daemon (SIGHUP reloads rules only; profile changes require a full restart)."@
}

/// What a profile command prints, or `None` where it names no profile.
pub open spec fn profile_lines(config: ConfigView, action: ProfileAction) -> Option<
    Seq<Seq<char>>,
> {
    match action {
        ProfileAction::List => Some(profile_list()),
        ProfileAction::Get => Some(seq![config.profile.name_of()]),
        ProfileAction::Select { name } => if ProfileKind::named(name@) is Some {
            Some(seq![selection_hint(name@)])
        } else {
            None
        },
    }
}

/// What a profile command prints. A name that is no profile's is an error.
pub fn run_profile(config: &Config, action: &ProfileAction) -> (r: Result<
    Vec<String>,
    UnknownProfile,
>)
    ensures
        match r {
            Ok(lines) => profile_lines(config@, *action) == Some(texts(lines@)),
            Err(e) => profile_lines(config@, *action) is None && (action matches
                ProfileAction::Select { name } && e.name@ == name@),
        },
{
    let mut lines: Vec<String> = Vec::new();
    match action {
        ProfileAction::List => {
            lines.push("Available profiles:".to_owned());
            lines.push("  default   - Balanced. No special boosting.".to_owned());
            lines.push(
                "  gaming    - Boost interactive and game processes, demote background tasks.".to_owned(),
            );
            lines.push(
                "  lowpower  - Prefer lower CPU pressure; demote non-critical tasks.".to_owned(),
            );
            lines.push("  server    - Prioritize daemons and network services.".to_owned());
            assert(texts(lines@) =~= profile_list());
        },
        ProfileAction::Get => {
            lines.push(config.profile.display());
            assert(texts(lines@) =~= seq![config@.profile.name_of()]);
        },
        ProfileAction::Select { name } => {
            match ProfileKind::from_str(name.as_str()) {
                Ok(_) => {},
                Err(e) => return Err(e),
            }
            let mut line = "Set 'profile = \"".to_owned();
            line.append(name.as_str());
            line.append(
                "\"' in your config file, then restart the daemon (SIGHUP reloads rules only; profile changes require a full restart).",
            );
            lines.push(line);
            assert(texts(lines@) =~= seq![selection_hint(name@)]);
        },
    }
    Ok(lines)
}

/// The directories to check: the given one, or those of the settings.
pub open spec fn checked_dirs(config: ConfigView, path: Option<Seq<char>>) -> Seq<Seq<char>> {
    match path {
        Some(dir) => seq![dir],
        None => config.rules_dirs,
    }
}

/// The task of a command, or `None` where it names no profile.
pub open spec fn task_of(command: Commands, config: ConfigView) -> Option<TaskView> {
    match command {
        Commands::Daemon { dry_run } => Some(
            TaskView::Serve(ConfigView { dry_run: dry_run || config.dry_run, ..config }),
        ),
        Commands::Profile { action } => match profile_lines(config, action) {
            Some(lines) => match action {
                ProfileAction::Select { name } => Some(
                    TaskView::SetProfile { profile: ProfileKind::named(name@)->0, lines },
                ),
                _ => Some(TaskView::Print(lines)),
            },
            None => None,
        },
        Commands::Explain { target } => Some(
            TaskView::Explain { rules_dirs: config.rules_dirs, target: target@ },
        ),
        Commands::Status => Some(TaskView::Status(config)),
        Commands::Check { path } => Some(
            TaskView::Check { rules_dirs: checked_dirs(config, text_in(path)) },
        ),
    }
}

/// Dispatch a command under the settings that were loaded for it.
pub fn run(cli: Cli, config: Config) -> (r: Result<Task, UnknownProfile>)
    ensures
        match r {
            Ok(task) => task_of(cli.command, config@) == Some(task@),
            Err(e) => task_of(cli.command, config@) is None && (cli.command matches
                Commands::Profile { action: ProfileAction::Select { name } } && e.name@ == name@),
        },
{
    let mut config = config;
    match cli.command {
        Commands::Daemon { dry_run } => {
            if dry_run {
                config.dry_run = true;
            }
            Ok(Task::Serve(Daemon::new(config)))
        },
        Commands::Profile { action } => {
            let lines = match run_profile(&config, &action) {
                Ok(lines) => lines,
                Err(e) => return Err(e),
            };
            match &action {
                ProfileAction::Select { name } => match ProfileKind::from_str(name.as_str()) {
                    Ok(profile) => Ok(Task::SetProfile { profile, lines }),
                    Err(e) => Err(e),
                },
                _ => Ok(Task::Print(lines)),
            }
        },
        Commands::Explain { target } => Ok(
            Task::Explain { rules_dirs: config.rules_dirs, target },
        ),
        Commands::Status => Ok(Task::Status(config)),
        Commands::Check { path } => {
            let rules_dirs = match path {
                Some(dir) => {
                    let mut dirs: Vec<String> = Vec::new();
                    dirs.push(dir);
                    assert(texts(dirs@) =~= seq![dir@]);
                    dirs
                },
                None => config.rules_dirs,
            };
            Ok(Task::Check { rules_dirs })
        },
    }
}

/// The `--dry-run` flag can only switch a dry run on, never off.
pub proof fn law_flag_only_adds_dry_run(config: ConfigView, dry_run: bool)
    ensures
        task_of(Commands::Daemon { dry_run }, config) matches Some(TaskView::Serve(used))
            && used.dry_run == (config.dry_run || dry_run) && (ConfigView {
            dry_run: config.dry_run,
            ..used
        }) == config,
{
}

/// The PID that a target of an explanation gives, where it is a number.
pub open spec fn target_pid(target: Seq<char>) -> Option<nat> {
    parsed_number(target, 10, u32::MAX as nat)
}

/// The PID that a target of an explanation gives; any other target is the name of a process.
pub fn explain_target(target: &str) -> (r: Option<u32>)
    ensures
        match r {
            Some(pid) => target_pid(target@) == Some(pid as nat),
            None => target_pid(target@) is None,
        },
{
    match parse_number(target, 10, u32::MAX as u64) {
        Some(n) => Some(n as u32),
        None => None,
    }
}

/// The name of an IO class, as it is shown.
pub open spec fn class_name(class: IoClass) -> Seq<char> {
    match class {
        IoClass::NoClass => "None"@,
        IoClass::RealTime => "RealTime"@,
        IoClass::BestEffort => "BestEffort"@,
        IoClass::Idle => "Idle"@,
    }
}

fn show_class(class: IoClass) -> (s: String)
    ensures
        s@ == class_name(class),
{
    match class {
        IoClass::NoClass => "None".to_owned(),
        IoClass::RealTime => "RealTime".to_owned(),
        IoClass::BestEffort => "BestEffort".to_owned(),
        IoClass::Idle => "Idle".to_owned(),
    }
}

/// A line with a label and a value, where there is a value.
pub open spec fn shown(label: Seq<char>, value: Option<Seq<char>>) -> Seq<Seq<char>> {
    match value {
        Some(text) => seq![label + text],
        None => seq![],
    }
}

fn show(lines: &mut Vec<String>, label: &str, value: Option<String>)
    ensures
        texts(final(lines)@) == texts(old(lines)@) + shown(label@, text_in(value)),
{
    match value {
        Some(text) => {
            let mut line = label.to_owned();
            line.append(text.as_str());
            lines.push(line);
        },
        None => {},
    }
    assert(texts(lines@) =~= texts(old(lines)@) + shown(label@, text_in(value)));
}

/// A number in decimal notation, where there is one.
pub open spec fn number_in(n: Option<int>) -> Option<Seq<char>> {
    match n {
        Some(v) => Some(decimal_of_int(v)),
        None => None,
    }
}

pub open spec fn int_in_i32(n: Option<i32>) -> Option<int> {
    match n {
        Some(v) => Some(v as int),
        None => None,
    }
}

fn show_i32(n: Option<i32>) -> (s: Option<String>)
    ensures
        text_in(s) == number_in(int_in_i32(n)),
{
    match n {
        Some(v) => Some(decimal_i32(v)),
        None => None,
    }
}

/// What is shown of a rule: its name and every effect that it has. The IO priority is only shown
/// together with an IO class.
pub open spec fn rule_lines(rule: ResolvedRuleView) -> Seq<Seq<char>> {
    seq!["✓ Matched rule:   "@ + rule.name] + shown(
        "  nice:           "@,
        number_in(int_in_i32(rule.nice)),
    ) + shown(
        "  ioclass:        "@,
        match rule.ioclass {
            Some(class) => Some(class_name(class)),
            None => None,
        },
    ) + shown(
        "  ionice:         "@,
        match (rule.ioclass, rule.ionice) {
            (Some(_), Some(level)) => Some(decimal_of(level as nat)),
            _ => None,
        },
    ) + shown("  oom_score_adj:  "@, number_in(int_in_i32(rule.oom_score_adj))) + shown(
        "  cgroup:         "@,
        rule.cgroup,
    ) + shown(
        "  cgroup_weight:  "@,
        match rule.cgroup_weight {
            Some(w) => Some(decimal_of(w as nat)),
            None => None,
        },
    )
}

fn show_rule(rule: &ResolvedRule) -> (lines: Vec<String>)
    ensures
        texts(lines@) == rule_lines(rule@),
{
    let mut lines: Vec<String> = Vec::new();
    let mut first = "✓ Matched rule:   ".to_owned();
    first.append(rule.name.as_str());
    lines.push(first);
    assert(texts(lines@) =~= seq!["✓ Matched rule:   "@ + rule@.name]);
    show(&mut lines, "  nice:           ", show_i32(rule.nice));
    let class = match rule.ioclass {
        Some(class) => Some(show_class(class)),
        None => None,
    };
    show(&mut lines, "  ioclass:        ", class);
    let level = match (rule.ioclass, rule.ionice) {
        (Some(_), Some(level)) => Some(decimal(level as u64)),
        _ => None,
    };
    show(&mut lines, "  ionice:         ", level);
    show(&mut lines, "  oom_score_adj:  ", show_i32(rule.oom_score_adj));
    show(&mut lines, "  cgroup:         ", copy_text(&rule.cgroup));
    let weight = match rule.cgroup_weight {
        Some(w) => Some(decimal(w)),
        None => None,
    };
    show(&mut lines, "  cgroup_weight:  ", weight);
    lines
}

/// What is shown of an explanation.
pub open spec fn explain_lines(e: ExplainView, target: Seq<char>) -> Seq<Seq<char>> {
    match e.matched {
        Some(rule) => rule_lines(rule),
        None => seq![
            "No rule matched '"@ + target + "' ("@ + decimal_of(e.attempts.len())
                + " rules checked)"@,
        ],
    }
}

/// Explain which of the loaded rules matches a process.
pub fn run_explain(set: &RuleSet, ctx: &ProcessContext, target: &str) -> (r: Result<
    Vec<String>,
    ValidationError,
>)
    ensures
        match r {
            Ok(lines) => refused_up_to(set@, set@.rules.len() as int) == 0 && texts(lines@)
                == explain_lines(
                explanation(resolved_up_to(set@, set@.rules.len() as int), ctx@),
                target@,
            ),
            Err(e) => e.problems == refused_up_to(set@, set@.rules.len() as int) && e.problems > 0,
        },
{
    let resolved = match set.validate() {
        Ok(resolved) => resolved,
        Err(e) => return Err(e),
    };
    let matcher = Matcher::new(resolved);
    let result = matcher.explain(ctx);
    match &result.matched {
        Some(rule) => Ok(show_rule(rule)),
        None => {
            let mut line = "No rule matched '".to_owned();
            line.append(target);
            line.append("' (");
            line.append(decimal(result.attempts.len() as u64).as_str());
            line.append(" rules checked)");
            let mut lines: Vec<String> = Vec::new();
            lines.push(line);
            assert(texts(lines@) =~= explain_lines(result@, target@));
            Ok(lines)
        },
    }
}

/// How a truth value is shown.
pub open spec fn truth_name(b: bool) -> Seq<char> {
    if b {
        "true"@
    } else {
        "false"@
    }
}

/// What the status shows.
pub open spec fn status_lines(
    config: ConfigView,
    scheduler: SchedulerView,
    set: RuleSetView,
) -> Seq<Seq<char>> {
    seq![
        "Scheduler : "@ + scheduler.display(),
        "Strategy  : "@ + scheduler.strategy().name_of(),
        "Profile   : "@ + config.profile.name_of(),
        "Types     : "@ + decimal_of(set.types.len()),
        "Rules     : "@ + decimal_of(set.rules.len()),
        "Dry-run   : "@ + truth_name(config.dry_run),
    ]
}

fn labelled(label: &str, text: String) -> (r: String)
    ensures
        r@ == label@ + text@,
{
    let mut r = label.to_owned();
    r.append(text.as_str());
    r
}

fn type_count(set: &RuleSet) -> (n: usize)
    ensures
        n == set@.types.len(),
{
    assert(set@.types.dom() =~= set.types@.dom());
    set.types.len()
}

/// The status of the scheduler, the profile and the loaded rules.
pub fn run_status(config: &Config, scheduler: &ScxScheduler, set: &RuleSet) -> (r: Result<
    Vec<String>,
    ValidationError,
>)
    ensures
        match r {
            Ok(lines) => refused_up_to(set@, set@.rules.len() as int) == 0 && texts(lines@)
                == status_lines(config@, scheduler@, set@),
            Err(e) => e.problems == refused_up_to(set@, set@.rules.len() as int) && e.problems > 0,
        },
{
    match set.validate() {
        Ok(_) => {},
        Err(e) => return Err(e),
    }
    let mut lines: Vec<String> = Vec::new();
    lines.push(labelled("Scheduler : ", scheduler.display()));
    lines.push(labelled("Strategy  : ", scheduler.strategy().name()));
    lines.push(labelled("Profile   : ", config.profile.display()));
    lines.push(labelled("Types     : ", decimal(type_count(set) as u64)));
    lines.push(labelled("Rules     : ", decimal(set.rules.len() as u64)));
    let dry_run = if config.dry_run {
        "true".to_owned()
    } else {
        "false".to_owned()
    };
    lines.push(labelled("Dry-run   : ", dry_run));
    assert(texts(lines@) =~= status_lines(config@, scheduler@, set@));
    Ok(lines)
}

/// What a check without errors shows.
pub open spec fn check_line(set: RuleSetView) -> Seq<char> {
    "OK — "@ + decimal_of(set.types.len()) + " types, "@ + decimal_of(
        resolved_up_to(set, set.rules.len() as int).len(),
    ) + " rules loaded and resolved without errors"@
}

/// Check the loaded rules.
pub fn run_check(set: &RuleSet) -> (r: Result<String, ValidationError>)
    ensures
        match r {
            Ok(line) => refused_up_to(set@, set@.rules.len() as int) == 0 && line@ == check_line(
                set@,
            ),
            Err(e) => e.problems == refused_up_to(set@, set@.rules.len() as int) && e.problems > 0,
        },
{
    let resolved = match set.validate() {
        Ok(resolved) => resolved,
        Err(e) => return Err(e),
    };
    let mut line = labelled("OK — ", decimal(type_count(set) as u64));
    line.append(" types, ");
    line.append(decimal(resolved.len() as u64).as_str());
    line.append(" rules loaded and resolved without errors");
    Ok(line)
}

} // verus!
