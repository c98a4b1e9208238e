use arbiter::app::{explain_target, run, run_check, run_explain, run_profile, run_status, Task};
use arbiter::cli::{Cli, Commands, ProfileAction};
use arbiter::config::{Config, Environment, ProfileKind};
use arbiter::platform::linux::scheduler::ScxScheduler;
use arbiter::rules::matcher::ProcessContext;
use arbiter::rules::types::{IoClass, Rule, RuleSet, TypeDef};

fn config() -> Config {
    Config::standard(&Environment {
        xdg_config_home: None,
        home: None,
    })
}

fn cli(command: Commands) -> Cli {
    Cli {
        command,
        config: None,
        log_level: None,
    }
}

fn rule(name: &str) -> Rule {
    Rule {
        name: name.into(),
        type_ref: None,
        nice: Some(-3),
        ioclass: Some(IoClass::BestEffort),
        ionice: Some(4),
        oom_score_adj: Some(-100),
        cgroup: Some("games.slice".into()),
        cgroup_weight: Some(200),
        exe_pattern: None,
        cmdline_contains: None,
    }
}

fn rules() -> RuleSet {
    let mut set = RuleSet::new();
    set.types.insert("Game".into(), TypeDef::default());
    set.rules.push(rule("steam"));
    set.rules.push(rule("lutris"));
    set
}

#[test]
fn dry_run_flag_only_switches_on() {
    for (flag, setting) in [(false, false), (true, false), (false, true), (true, true)] {
        let mut settings = config();
        settings.dry_run = setting;
        match run(cli(Commands::Daemon { dry_run: flag }), settings).ok().unwrap() {
            Task::Serve(daemon) => assert_eq!(daemon.config().dry_run, flag || setting),
            _ => panic!("no daemon"),
        }
    }
}

#[test]
fn check_uses_the_given_directory_or_the_settings() {
    match run(cli(Commands::Check { path: Some("/d".into()) }), config()).ok().unwrap() {
        Task::Check { rules_dirs } => assert_eq!(rules_dirs, vec!["/d"]),
        _ => panic!("no check"),
    }
    match run(cli(Commands::Check { path: None }), config()).ok().unwrap() {
        Task::Check { rules_dirs } => assert_eq!(rules_dirs, config().rules_dirs),
        _ => panic!("no check"),
    }
}

#[test]
fn other_commands_get_what_they_need() {
    match run(cli(Commands::Explain { target: "steam".into() }), config()).ok().unwrap() {
        Task::Explain { rules_dirs, target } => {
            assert_eq!(rules_dirs, config().rules_dirs);
            assert_eq!(target, "steam");
        }
        _ => panic!("no explanation"),
    }
    assert!(matches!(run(cli(Commands::Status), config()), Ok(Task::Status(_))));
    let get = Commands::Profile { action: ProfileAction::Get };
    assert!(matches!(run(cli(get), config()), Ok(Task::Print(lines)) if lines == vec!["default"]));
    let select = Commands::Profile { action: ProfileAction::Select { name: "low-power".into() } };
    match run(cli(select), config()).ok().unwrap() {
        Task::SetProfile { profile, lines } => {
            assert_eq!(profile, ProfileKind::LowPower);
            assert_eq!(lines.len(), 1);
        }
        _ => panic!("no new profile"),
    }
    let bad = Commands::Profile { action: ProfileAction::Select { name: "x".into() } };
    assert!(matches!(run(cli(bad), config()), Err(e) if e.name == "x"));
}

#[test]
fn profile_commands_print() {
    let mut settings = config();
    settings.profile = ProfileKind::LowPower;
    let lines = run_profile(&settings, &ProfileAction::List).unwrap();
    assert_eq!(lines.len(), 5);
    assert_eq!(lines[1], "  default   - Balanced. No special boosting.");
    assert_eq!(run_profile(&settings, &ProfileAction::Get).unwrap(), vec!["lowpower"]);
    let select = ProfileAction::Select { name: "gaming".into() };
    assert_eq!(
        run_profile(&settings, &select).unwrap(),
        vec![
            "Set 'profile = \"gaming\"' in your config file, then restart the daemon \
             (SIGHUP reloads rules only; profile changes require a full restart)."
        ]
    );
}

#[test]
fn explain_targets_are_pids_or_names() {
    assert_eq!(explain_target("1234"), Some(1234));
    assert_eq!(explain_target("+7"), Some(7));
    assert_eq!(explain_target("4294967295"), Some(u32::MAX));
    assert_eq!(explain_target("4294967296"), None);
    assert_eq!(explain_target("-1"), None);
    assert_eq!(explain_target(""), None);
    assert_eq!(explain_target("+"), None);
    assert_eq!(explain_target("firefox"), None);
}

#[test]
fn explanation_shows_the_rule() {
    let lines = run_explain(&rules(), &ProcessContext::named("Steam"), "Steam").unwrap();
    assert_eq!(
        lines,
        vec![
            "✓ Matched rule:   steam",
            "  nice:           -3",
            "  ioclass:        BestEffort",
            "  ionice:         4",
            "  oom_score_adj:  -100",
            "  cgroup:         games.slice",
            "  cgroup_weight:  200",
        ]
    );
    let mut set = rules();
    set.rules[0].ioclass = None;
    set.rules[0].nice = None;
    let lines = run_explain(&set, &ProcessContext::named("steam"), "steam").unwrap();
    assert_eq!(lines[1], "  oom_score_adj:  -100");
}

#[test]
fn explanation_without_a_match_counts_the_rules() {
    let lines = run_explain(&rules(), &ProcessContext::named("vim"), "vim").unwrap();
    assert_eq!(lines, vec!["No rule matched 'vim' (2 rules checked)"]);
}

#[test]
fn status_and_check_count() {
    let lines = run_status(&config(), &ScxScheduler::Bpfland, &rules()).unwrap();
    assert_eq!(
        lines,
        vec![
            "Scheduler : scx_bpfland",
            "Strategy  : NiceAndWeight",
            "Profile   : default",
            "Types     : 1",
            "Rules     : 2",
            "Dry-run   : false",
        ]
    );
    assert_eq!(
        run_check(&rules()).unwrap(),
        "OK — 1 types, 2 rules loaded and resolved without errors"
    );
}

#[test]
fn refused_rules_fail_every_command() {
    let mut set = rules();
    set.rules[1].type_ref = Some("Missing".into());
    let process = ProcessContext::named("steam");
    assert_eq!(run_check(&set).unwrap_err().problems, 1);
    assert_eq!(run_explain(&set, &process, "steam").unwrap_err().problems, 1);
    assert_eq!(
        run_status(&config(), &ScxScheduler::NoScheduler, &set).unwrap_err().problems,
        1
    );
}

#[test]
fn log_level_comes_from_the_flag_or_the_settings() {
    let mut command = cli(Commands::Status);
    let mut settings = config();
    assert_eq!(command.starting_log_level(&settings), "info");
    settings.log_level = "debug".into();
    assert_eq!(command.starting_log_level(&settings), "debug");
    command.log_level = Some("trace".into());
    assert_eq!(command.starting_log_level(&settings), "trace");
}
