use arbiter::applier::cgroup::{CgroupMove, CgroupStep, ControlFile, StepOutcome};
use arbiter::applier::process::{oom_score_adj_path, oom_score_adj_value};
use arbiter::applier::{Applier, Application, ApplyAction, ApplyEvent, ApplyResult};
use arbiter::config::{Config, Environment};
use arbiter::platform::linux::scheduler::ScxScheduler;
use arbiter::rules::matcher::ProcessContext;
use arbiter::rules::types::{IoClass, ResolvedRule};

fn config() -> Config {
    Config::standard(&Environment {
        xdg_config_home: None,
        home: None,
    })
}

fn rule() -> ResolvedRule {
    ResolvedRule {
        name: "game".into(),
        name_lowercase: "game".into(),
        nice: Some(-30),
        ioclass: Some(IoClass::RealTime),
        ionice: Some(0),
        oom_score_adj: Some(5000),
        cgroup: Some("games".into()),
        cgroup_weight: Some(700),
        exe_pattern: None,
        cmdline_contains: None,
    }
}

fn process() -> ProcessContext {
    let mut process = ProcessContext::named("game");
    process.pid = 5;
    process.start_time_ticks = 77;
    process
}

fn show(action: &ApplyAction) -> String {
    match action {
        ApplyAction::CheckPid => "check".into(),
        ApplyAction::SetNice(n) => format!("nice {n}"),
        ApplyAction::SetOom(n) => format!("oom {n}"),
        ApplyAction::MoveToCgroup { cgroup, weight, io_weight } => {
            format!("move {cgroup} {weight:?} {io_weight:?}")
        }
    }
}

fn drive(mut a: Application, events: &[ApplyEvent]) -> (Vec<String>, ApplyResult) {
    let mut seen = Vec::new();
    let mut given = events.iter();
    while let Some(action) = a.current() {
        seen.push(show(action));
        a.record(*given.next().unwrap());
    }
    (seen, a.into_result())
}

#[test]
fn everything_is_applied_in_order() {
    let applier = Applier::new(config());
    let a = applier.apply(&process(), &rule(), &ScxScheduler::Bpfland);
    let (seen, result) = drive(
        a,
        &[
            ApplyEvent::StartTime(Some(77)),
            ApplyEvent::Done,
            ApplyEvent::Done,
            ApplyEvent::Moved(Some(1000)),
        ],
    );
    assert_eq!(
        seen,
        vec!["check", "nice -20", "oom 1000", "move games Some(700) Some(1000)"]
    );
    assert!(!result.dry_run);
    assert_eq!(result.nice_applied, Some(-20));
    assert_eq!(result.oom_applied, Some(1000));
    assert_eq!(result.cgroup_applied.as_deref(), Some("games"));
    assert_eq!(result.io_weight_applied, Some(1000));
}

#[test]
fn dry_run_does_nothing() {
    let mut settings = config();
    settings.dry_run = true;
    let a = Applier::new(settings).apply(&process(), &rule(), &ScxScheduler::Bpfland);
    assert!(a.current().is_none());
    let result = a.into_result();
    assert!(result.dry_run);
    assert_eq!(result.nice_applied, None);
    assert_eq!(result.cgroup_applied, None);
}

#[test]
fn reused_or_gone_pid_is_left_alone() {
    for now in [None, Some(78)] {
        let applier = Applier::new(config());
        let mut a = applier.apply(&process(), &rule(), &ScxScheduler::Bpfland);
        a.record(ApplyEvent::StartTime(now));
        assert!(a.is_stale());
        assert!(a.current().is_none());
        let result = a.into_result();
        assert_eq!(result.nice_applied, None);
        assert!(!result.dry_run);
    }
}

#[test]
fn failed_actions_do_not_stop_the_others() {
    let applier = Applier::new(config());
    let a = applier.apply(&process(), &rule(), &ScxScheduler::NoScheduler);
    let (seen, result) = drive(
        a,
        &[
            ApplyEvent::StartTime(Some(77)),
            ApplyEvent::Failed,
            ApplyEvent::Done,
            ApplyEvent::Failed,
        ],
    );
    assert_eq!(seen.len(), 4);
    assert_eq!(result.nice_applied, None);
    assert_eq!(result.oom_applied, Some(1000));
    assert_eq!(result.cgroup_applied, None);
    assert_eq!(result.io_weight_applied, None);
}

#[test]
fn switched_off_settings_are_not_applied() {
    let mut settings = config();
    settings.apply_nice = false;
    settings.apply_oom = false;
    settings.apply_ionice = false;
    let a = Applier::new(settings.clone()).apply(&process(), &rule(), &ScxScheduler::NoScheduler);
    let (seen, _) = drive(a, &[ApplyEvent::StartTime(Some(77)), ApplyEvent::Moved(None)]);
    assert_eq!(seen, vec!["check", "move games None None"]);
    settings.apply_cgroup = false;
    let a = Applier::new(settings).apply(&process(), &rule(), &ScxScheduler::Lavd);
    let (seen, _) = drive(a, &[ApplyEvent::StartTime(Some(77))]);
    assert_eq!(seen, vec!["check"]);
}

#[test]
fn io_weight_needs_a_cgroup() {
    let applier = Applier::new(config());
    let scheduler = ScxScheduler::NoScheduler;
    let mut without = rule();
    without.cgroup = None;
    assert!(applier.apply(&process(), &without, &scheduler).skips_io_weight());
    assert!(!applier.apply(&process(), &rule(), &scheduler).skips_io_weight());
    without.ioclass = None;
    without.ionice = None;
    assert!(!applier.apply(&process(), &without, &scheduler).skips_io_weight());
}

#[test]
fn layers_are_exported_for_layered_schedulers_only() {
    let mut settings = config();
    settings.layered_export_path = Some("/run/layers.json".into());
    let applier = Applier::new(settings);
    let layered = applier.apply(&process(), &rule(), &ScxScheduler::Layered);
    assert_eq!(layered.layered_target().as_deref(), Some("/run/layers.json"));
    assert_eq!(layered.rule_name(), "game");
    let other = applier.apply(&process(), &rule(), &ScxScheduler::Lavd);
    assert_eq!(other.layered_target(), None);
}

#[test]
fn oom_score_is_written_under_proc() {
    assert_eq!(oom_score_adj_path(4194304), "/proc/4194304/oom_score_adj");
    assert_eq!(oom_score_adj_value(-1000), "-1000\n");
    assert_eq!(oom_score_adj_value(0), "0\n");
}

#[test]
fn default_result_is_empty() {
    let result = ApplyResult::default();
    assert!(!result.dry_run);
    assert_eq!(result.nice_applied, None);
    assert_eq!(result.oom_applied, None);
    assert_eq!(result.io_weight_applied, None);
    assert_eq!(result.cgroup_applied, None);
}

#[test]
fn moves_report_the_requested_io_weight_or_none() {
    for (io_outcome, expected) in [
        (StepOutcome::Done, ApplyEvent::Moved(Some(1000))),
        (StepOutcome::Missing, ApplyEvent::Moved(None)),
        (StepOutcome::Failed, ApplyEvent::Failed),
    ] {
        let mut m = CgroupMove::new(0, 5, "games", None, Some(1000)).unwrap();
        assert_eq!(ApplyEvent::from_move(&m), ApplyEvent::Failed);
        loop {
            let outcome = match m.current() {
                None => break,
                Some(CgroupStep::Write { file: ControlFile::IoWeight, .. }) => io_outcome,
                Some(_) => StepOutcome::Done,
            };
            m.record(outcome);
        }
        assert_eq!(ApplyEvent::from_move(&m), expected);
    }
}
