use arbiter::rules::matcher::{Matcher, ProcSnapshot, ProcessContext, MAX_COMM_LEN};
use arbiter::rules::types::ResolvedRule;
use regex::Regex;

fn ctx(comm: &str, exe: Option<&str>) -> ProcessContext {
    let comm_lowercase = comm.to_lowercase();
    let exe_name_lowercase = exe
        .and_then(|path| path.rsplit('/').next())
        .map(|s| s.to_lowercase());
    ProcessContext {
        pid: 1,
        ppid: 0,
        start_time_ticks: 0,
        comm: comm.to_string(),
        comm_lowercase,
        exe: exe.map(|value| value.to_string()),
        exe_name_lowercase,
        cmdline: None,
    }
}

fn rule(name: &str) -> ResolvedRule {
    ResolvedRule {
        name: name.to_string(),
        name_lowercase: name.to_lowercase(),
        nice: Some(0),
        ioclass: None,
        ionice: None,
        oom_score_adj: None,
        cgroup: None,
        cgroup_weight: None,
        exe_pattern: None,
        cmdline_contains: None,
    }
}

fn matcher(rules: Vec<ResolvedRule>) -> Matcher {
    Matcher::new(rules)
}

#[test]
fn exact_comm_match() {
    let matcher = matcher(vec![rule("bash")]);
    assert!(matcher.find_match(&ctx("bash", None)).is_some());
    assert!(matcher.find_match(&ctx("dash", None)).is_none());
}

#[test]
fn truncated_comm_prefix_match() {
    let long_name = "firefox-esr-binary";
    let truncated_comm = &long_name[..MAX_COMM_LEN];
    assert_eq!(truncated_comm.len(), MAX_COMM_LEN);

    let matcher = matcher(vec![rule(long_name)]);
    assert!(
        matcher.find_match(&ctx(truncated_comm, None)).is_some(),
        "rule with long name should match truncated comm via prefix check"
    );
}

#[test]
fn short_comm_no_false_prefix_match() {
    let matcher = matcher(vec![rule("firefox-esr-binary")]);
    assert!(
        matcher.find_match(&ctx("fire", None)).is_none(),
        "prefix match must not activate for comm shorter than MAX_COMM_LEN"
    );
}

#[test]
fn unicode_names_do_not_panic_when_indexing_prefixes() {
    let matcher = matcher(vec![rule("火狐浏览器进程示例")]);
    assert!(matcher.find_match(&ctx("火狐浏览器", None)).is_some());
}

#[test]
fn case_insensitive_match() {
    let matcher = matcher(vec![rule("Firefox")]);
    assert!(matcher.find_match(&ctx("firefox", None)).is_some());
    assert!(matcher.find_match(&ctx("FIREFOX", None)).is_some());
}

#[test]
fn exe_basename_match() {
    let matcher = matcher(vec![rule("steam")]);
    assert!(
        matcher
            .find_match(&ctx("steam-runtime", Some("/usr/bin/steam")))
            .is_some()
    );
    assert!(
        matcher
            .find_match(&ctx("unrelated", Some("/usr/bin/steam")))
            .is_some()
    );
    assert!(
        matcher
            .find_match(&ctx("unrelated", Some("/usr/bin/other")))
            .is_none()
    );
}

#[test]
fn short_rule_name_does_not_match_long_comm() {
    let long_comm = "abcdefghijklmno";
    assert_eq!(long_comm.len(), MAX_COMM_LEN);
    let matcher = matcher(vec![rule("ab")]);
    assert!(
        matcher.find_match(&ctx(long_comm, None)).is_none(),
        "short rule 'ab' must not match long comm via reversed prefix"
    );
}

#[test]
fn first_of_several_matches_wins() {
    let mut first = rule("bash");
    first.nice = Some(1);
    let mut second = rule("BASH");
    second.nice = Some(2);
    let matcher = matcher(vec![rule("zsh"), first, second]);
    assert_eq!(matcher.find_match(&ctx("bash", None)).unwrap().nice, Some(1));
}

#[test]
fn predicates_must_all_hold() {
    let mut picky = rule("");
    picky.exe_pattern = Some(Regex::new("^/opt/.*game$").unwrap());
    picky.cmdline_contains = Some("--fullscreen".to_string());
    let matcher = matcher(vec![picky]);

    let mut process = ctx("x", Some("/opt/fun/game"));
    assert!(matcher.find_match(&process).is_none());
    process.cmdline = Some("game --windowed".to_string());
    assert!(matcher.find_match(&process).is_none());
    process.cmdline = Some("game --fullscreen".to_string());
    assert!(matcher.find_match(&process).is_some());
    process.exe = Some("/usr/bin/game".to_string());
    assert!(matcher.find_match(&process).is_none());
    process.exe = None;
    assert!(matcher.find_match(&process).is_none());
}

#[test]
fn names_that_shrink_in_lower_case_are_found() {
    // Five Kelvin signs take fifteen bytes, but five in lower case.
    let comm = "\u{212a}\u{212a}\u{212a}\u{212a}\u{212a}";
    assert_eq!(comm.len(), MAX_COMM_LEN);
    let matcher = matcher(vec![rule("kkkkkz")]);
    let process = ctx(comm, None);
    assert!(matcher.find_match(&process).is_some());
    assert!(matcher.explain(&process).matched.is_some());
}

#[test]
fn explanation_lists_every_rule() {
    let matcher = matcher(vec![rule("a"), rule("b"), rule("B"), rule("c")]);
    let result = matcher.explain(&ctx("b", None));
    assert_eq!(result.matched.unwrap().name, "b");
    assert_eq!(
        result.attempts,
        vec![
            ("a".to_string(), false),
            ("b".to_string(), true),
            ("B".to_string(), true),
            ("c".to_string(), false),
        ]
    );
    let result = matcher.explain(&ctx("d", None));
    assert!(result.matched.is_none());
    assert_eq!(result.attempts.len(), 4);
}

#[test]
fn context_is_built_from_what_was_read() {
    let process = ProcessContext::from_pid(
        7,
        ProcSnapshot {
            ppid: 3,
            start_time_ticks: 99,
            comm: "Steam".to_string(),
            exe: Some("/usr/lib/Steam/STEAM".to_string()),
            args: Some(vec!["steam".to_string(), "-silent".to_string()]),
        },
    );
    assert_eq!(process.pid, 7);
    assert_eq!(process.ppid, 3);
    assert_eq!(process.start_time_ticks, 99);
    assert_eq!(process.comm, "Steam");
    assert_eq!(process.comm_lowercase, "steam");
    assert_eq!(process.exe_name(), Some("STEAM"));
    assert_eq!(process.exe_name_lowercase.as_deref(), Some("steam"));
    assert_eq!(process.cmdline.as_deref(), Some("steam -silent"));
    assert!(process.matches_current_pid(Some(99)));
    assert!(!process.matches_current_pid(Some(100)));
    assert!(!process.matches_current_pid(None));
}

#[test]
fn missing_parts_of_a_process_stay_missing() {
    let process = ProcessContext::from_pid(
        7,
        ProcSnapshot {
            ppid: 0,
            start_time_ticks: 1,
            comm: "kthreadd".to_string(),
            exe: None,
            args: Some(Vec::new()),
        },
    );
    assert_eq!(process.exe_name(), None);
    assert_eq!(process.exe_name_lowercase, None);
    assert_eq!(process.cmdline, None);
}

#[test]
fn named_context_knows_only_the_name() {
    let process = ProcessContext::named("FireFox");
    assert_eq!(process.comm, "FireFox");
    assert_eq!(process.comm_lowercase, "firefox");
    assert_eq!(process.exe, None);
    assert_eq!(process.cmdline, None);
    assert_eq!((process.pid, process.ppid, process.start_time_ticks), (0, 0, 0));
}
