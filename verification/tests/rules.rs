use arbiter::rules::matcher::{Matcher, ProcessContext};
use arbiter::rules::types::{IoClass, Rule, RuleSet, TypeDef};
use arbiter::rules::validator::{is_acceptable_cgroup, Finding};

fn plain_rule(name: &str) -> Rule {
    Rule {
        name: name.into(),
        type_ref: None,
        nice: Some(1),
        ioclass: None,
        ionice: None,
        oom_score_adj: None,
        cgroup: None,
        cgroup_weight: None,
        exe_pattern: None,
        cmdline_contains: None,
    }
}

fn game_rules() -> RuleSet {
    let mut rs = RuleSet::new();
    rs.types.insert(
        "Game".into(),
        TypeDef {
            name: "Game".into(),
            nice: Some(-5),
            ..Default::default()
        },
    );
    rs.rules.push(Rule {
        name: "steam".into(),
        type_ref: Some("Game".into()),
        nice: None,
        ioclass: None,
        ionice: None,
        oom_score_adj: None,
        cgroup: None,
        cgroup_weight: None,
        exe_pattern: None,
        cmdline_contains: None,
    });
    rs
}

#[test]
fn rules_parses_valid_rules() {
    let rs = game_rules();
    let resolved = rs.validate().unwrap();
    assert_eq!(resolved.len(), 1);
    assert_eq!(resolved[0].nice, Some(-5));
}

#[test]
fn mod_parses_valid_rules() {
    let mut rs = RuleSet::new();
    rs.types.insert(
        "Game".into(),
        TypeDef {
            name: "Game".into(),
            nice: Some(-5),
            ..Default::default()
        },
    );
    rs.rules.push(Rule {
        name: "steam".into(),
        type_ref: Some("Game".into()),
        nice: None,
        ioclass: None,
        ionice: None,
        oom_score_adj: None,
        cgroup: None,
        cgroup_weight: None,
        exe_pattern: None,
        cmdline_contains: None,
    });

    let resolved = rs.validate().unwrap();
    assert_eq!(resolved.len(), 1);
    assert_eq!(resolved[0].nice, Some(-5));
}

#[test]
fn rule_fields_override_the_type() {
    let mut rs = game_rules();
    rs.rules[0].nice = Some(3);
    assert_eq!(rs.validate().unwrap()[0].nice, Some(3));
    rs.rules[0].type_ref = None;
    rs.rules[0].nice = None;
    assert_eq!(rs.validate().unwrap()[0].nice, None);
}

#[test]
fn missing_type_is_refused() {
    let mut rs = game_rules();
    rs.rules[0].type_ref = Some("Browser".into());
    rs.rules.push(plain_rule("ok"));
    let err = rs.validate().unwrap_err();
    assert_eq!(err.problems, 1);
    assert_eq!(err.message(), "1 problem(s) found during rule validation");
    let report = rs.report();
    assert_eq!(report.resolved.len(), 1);
    assert_eq!(report.resolved[0].name, "ok");
    assert!(matches!(&report.diagnostics[0].finding, Finding::MissingType(name) if name == "Browser"));
}

#[test]
fn invalid_pattern_is_refused() {
    let mut rs = RuleSet::new();
    let mut rule = plain_rule("bad");
    rule.exe_pattern = Some("(".into());
    rs.rules.push(rule);
    let report = rs.report();
    assert_eq!(report.problems, 1);
    assert!(matches!(&report.diagnostics[0].finding, Finding::InvalidPattern { pattern, reason }
        if pattern == "(" && reason.contains("unclosed group")));
    assert!(report.diagnostics[0].finding.is_error());
}

#[test]
fn pattern_is_searched_in_the_executable_path() {
    let mut rs = RuleSet::new();
    let mut rule = plain_rule("");
    rule.exe_pattern = Some("game[0-9]".into());
    rs.rules.push(rule);
    let matcher = Matcher::new(rs.validate().unwrap());
    let mut process = ProcessContext::named("x");
    process.exe = Some("/opt/game7/run".into());
    assert!(matcher.find_match(&process).is_some());
    process.exe = Some("/opt/gameX/run".into());
    assert!(matcher.find_match(&process).is_none());
}

#[test]
fn unsafe_cgroup_is_refused() {
    for path in ["", "/system.slice", "../escape", "a/..b"] {
        assert!(!is_acceptable_cgroup(path));
        let mut rs = RuleSet::new();
        let mut rule = plain_rule("r");
        rule.cgroup = Some(path.into());
        rs.rules.push(rule);
        assert!(rs.validate().is_err());
    }
    assert!(is_acceptable_cgroup("apps/games.slice"));
}

#[test]
fn values_out_of_bounds_are_only_warned_about() {
    let mut rs = RuleSet::new();
    let mut rule = plain_rule("r");
    rule.nice = Some(20);
    rule.ionice = Some(8);
    rule.oom_score_adj = Some(-1001);
    rule.cgroup_weight = Some(0);
    rs.rules.push(rule);
    let report = rs.report();
    assert_eq!(report.problems, 0);
    assert_eq!(report.resolved.len(), 1);
    assert!(report.diagnostics.iter().all(|d| !d.finding.is_error()));
    assert!(report.diagnostics.iter().any(|d| matches!(d.finding, Finding::NiceOutOfBounds(20))));
    assert!(report.diagnostics.iter().any(|d| matches!(d.finding, Finding::IoniceOutOfBounds(8))));
    assert!(report.diagnostics.iter().any(|d| matches!(d.finding, Finding::OomOutOfBounds(-1001))));
    assert!(report.diagnostics.iter().any(|d| matches!(d.finding, Finding::WeightWithoutCgroup)));
}

#[test]
fn rule_without_effects_is_warned_about() {
    let mut rs = RuleSet::new();
    let mut rule = plain_rule("idle");
    rule.nice = None;
    rs.rules.push(rule);
    let report = rs.report();
    assert!(!report.resolved[0].has_effects());
    assert!(matches!(report.diagnostics[0].finding, Finding::NoEffect));
    assert_eq!(report.problems, 0);
}

#[test]
fn duplicate_selectors_are_shadowed() {
    let mut rs = RuleSet::new();
    rs.rules.push(plain_rule("twice"));
    let mut second = plain_rule("twice");
    second.nice = Some(9);
    rs.rules.push(second);
    let report = rs.report();
    assert_eq!(report.diagnostics.len(), 1);
    assert_eq!(report.diagnostics[0].rule, 1);
    assert!(matches!(report.diagnostics[0].finding, Finding::DuplicateSelector));
    let matcher = Matcher::new(rs.validate().unwrap());
    let process = ProcessContext::named("twice");
    assert_eq!(matcher.find_match(&process).unwrap().nice, Some(1));
}

#[test]
fn valid_rules_keep_their_order() {
    let mut rs = RuleSet::new();
    for name in ["c", "a", "b"] {
        rs.rules.push(plain_rule(name));
    }
    let names: Vec<String> = rs.validate().unwrap().into_iter().map(|r| r.name).collect();
    assert_eq!(names, vec!["c", "a", "b"]);
}

#[test]
fn io_classes_have_linux_numbers() {
    assert_eq!(IoClass::NoClass.as_linux_class(), 0);
    assert_eq!(IoClass::RealTime.as_linux_class(), 1);
    assert_eq!(IoClass::BestEffort.as_linux_class(), 2);
    assert_eq!(IoClass::Idle.as_linux_class(), 3);
}
