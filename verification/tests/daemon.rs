use arbiter::applier::Applier;
use arbiter::config::{Config, Environment};
use arbiter::daemon::{
    handle_message, handle_proc_event, process_exec, reload_rules, ContextRetry, Daemon,
    DaemonAction, DaemonMessage, ReloadOutcome, RetryStep,
};
use arbiter::platform::linux::events::ProcEvent;
use arbiter::platform::linux::scheduler::ScxScheduler;
use arbiter::rules::loader::LoadError;
use arbiter::rules::matcher::{Matcher, ProcessContext};
use arbiter::rules::types::{Rule, RuleSet};

fn config() -> Config {
    Config::standard(&Environment {
        xdg_config_home: None,
        home: None,
    })
}

fn rules(names: &[&str]) -> RuleSet {
    let mut set = RuleSet::new();
    for name in names {
        set.rules.push(Rule {
            name: name.to_string(),
            type_ref: None,
            nice: Some(1),
            ioclass: None,
            ionice: None,
            oom_score_adj: None,
            cgroup: None,
            cgroup_weight: None,
            exe_pattern: None,
            cmdline_contains: None,
        });
    }
    set
}

fn finds(matcher: &Matcher, name: &str) -> bool {
    matcher.find_match(&ProcessContext::named(name)).is_some()
}

#[test]
fn only_exec_events_queue_a_process() {
    let exec = ProcEvent::Exec { pid: 5, tgid: 4 };
    let fork = ProcEvent::Fork { parent_pid: 1, child_pid: 2 };
    let exit = ProcEvent::Exit { pid: 5, exit_code: 0 };
    assert_eq!(handle_proc_event(exec), Some(5));
    assert_eq!(handle_proc_event(fork), None);
    assert_eq!(handle_proc_event(exit), None);
    assert_eq!(handle_message(DaemonMessage::Proc(exec)), DaemonAction::Enqueue(5));
    assert_eq!(handle_message(DaemonMessage::Proc(fork)), DaemonAction::Ignore);
    assert_eq!(handle_message(DaemonMessage::ReloadRules), DaemonAction::ReloadRules);
    assert_eq!(handle_message(DaemonMessage::Shutdown), DaemonAction::Stop);
}

#[test]
fn reload_puts_valid_rules_in_place() {
    let mut matcher = Matcher::new(rules(&["old"]).validate().unwrap());
    let outcome = reload_rules(&mut matcher, Ok(rules(&["new", "newer"])));
    assert!(matches!(outcome, ReloadOutcome::Reloaded(2)));
    assert!(finds(&matcher, "new"));
    assert!(!finds(&matcher, "old"));
}

#[test]
fn failed_reload_keeps_the_rules() {
    let mut matcher = Matcher::new(rules(&["old"]).validate().unwrap());
    let error = LoadError {
        dir: "d".into(),
        file: "f".into(),
        reason: "r".into(),
    };
    let outcome = reload_rules(&mut matcher, Err(error));
    assert!(matches!(outcome, ReloadOutcome::LoadFailed(e) if e.file == "f"));
    assert!(finds(&matcher, "old"));

    let mut bad = rules(&["new", "newer"]);
    bad.rules[1].cgroup = Some("/abs".into());
    let outcome = reload_rules(&mut matcher, Ok(bad));
    assert!(matches!(outcome, ReloadOutcome::Invalid(e) if e.problems == 1));
    assert!(finds(&matcher, "old"));
    assert!(!finds(&matcher, "new"));
}

#[test]
fn matched_process_gets_the_rule_applied() {
    let matcher = Matcher::new(rules(&["vim"]).validate().unwrap());
    let applier = Applier::new(config());
    let scheduler = ScxScheduler::NoScheduler;
    assert!(process_exec(&matcher, &applier, &scheduler, &ProcessContext::named("vim")).is_some());
    assert!(process_exec(&matcher, &applier, &scheduler, &ProcessContext::named("ed")).is_none());
}

#[test]
fn delay_passes_before_anything_is_read() {
    for delay in [0, 50, u64::MAX] {
        let (first, _) = ContextRetry::begin(delay);
        assert!(matches!(first, RetryStep::Sleep(ms) if ms == delay));
    }
}

#[test]
fn complete_context_is_used_as_read() {
    let mut process = ProcessContext::named("x");
    process.exe = Some("/x".into());
    process.cmdline = Some("x".into());
    let (step, next) = ContextRetry::begin(50).1.step(Some(process));
    assert!(matches!(step, RetryStep::Ready(p) if p.comm == "x"));
    assert!(next.is_none());
}

#[test]
fn waits_double_up_to_eight_within_the_budget() {
    let mut retry = ContextRetry::begin(20).1;
    let mut waits = Vec::new();
    loop {
        match retry.step(None) {
            (RetryStep::Sleep(ms), Some(next)) => {
                waits.push(ms);
                retry = next;
            }
            (RetryStep::GiveUp, None) => break,
            _ => panic!("unexpected step"),
        }
    }
    assert_eq!(waits, vec![1, 2, 4, 8, 5]);
}

#[test]
fn no_budget_means_one_attempt() {
    assert!(matches!(ContextRetry::begin(0).1.step(None).0, RetryStep::GiveUp));
    let (step, _) = ContextRetry::begin(0).1.step(Some(ProcessContext::named("partial")));
    assert!(matches!(step, RetryStep::Ready(p) if p.comm == "partial"));
}

#[test]
fn last_partial_context_is_kept() {
    let (_, next) = ContextRetry::begin(3).1.step(Some(ProcessContext::named("first")));
    let (_, next) = next.unwrap().step(None);
    let (step, next) = next.unwrap().step(None);
    assert!(next.is_none());
    assert!(matches!(step, RetryStep::Ready(p) if p.comm == "first"));
}

#[test]
fn daemon_keeps_its_settings() {
    let mut settings = config();
    settings.exec_delay_ms = 9;
    assert_eq!(Daemon::new(settings).config().exec_delay_ms, 9);
}
