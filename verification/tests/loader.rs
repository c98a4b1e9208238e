use arbiter::rules::lines::LineCheck;
use arbiter::rules::loader::{
    entry_from, load_order, Entry, EntryProblem, LoadReport, Remark, RulesDir, SourceFile,
};
use arbiter::rules::types::{Rule, RuleSet, TypeDef};

fn preset(name: &str, nice: i32) -> Entry<TypeDef> {
    Entry {
        number: 1,
        unknown: Vec::new(),
        value: Ok(TypeDef {
            name: name.into(),
            nice: Some(nice),
            ..Default::default()
        }),
    }
}

fn rule(name: &str) -> Entry<Rule> {
    Entry {
        number: 1,
        unknown: Vec::new(),
        value: Ok(Rule {
            name: name.into(),
            type_ref: None,
            nice: None,
            ioclass: None,
            ionice: None,
            oom_score_adj: None,
            cgroup: None,
            cgroup_weight: None,
            exe_pattern: None,
            cmdline_contains: None,
        }),
    }
}

fn file<T>(path: &str, entries: Vec<Entry<T>>) -> SourceFile<T> {
    SourceFile {
        path: path.into(),
        entries: Ok(entries),
    }
}

fn dir(
    path: &str,
    type_files: Vec<SourceFile<TypeDef>>,
    rule_files: Vec<SourceFile<Rule>>,
) -> Option<RulesDir> {
    Some(RulesDir {
        path: path.into(),
        type_files,
        rule_files,
        cgroup_files: Vec::new(),
    })
}

fn names(set: &RuleSet) -> Vec<String> {
    set.rules.iter().map(|r| r.name.clone()).collect()
}

#[test]
fn later_definitions_override_earlier_ones() {
    let dirs = vec![
        dir("a", vec![file("a/1.types", vec![preset("Game", 1), preset("Game", 2)])], vec![]),
        dir("b", vec![file("b/1.types", vec![preset("Game", 3), preset("Other", 4)])], vec![]),
    ];
    let report = RuleSet::load_report(&dirs);
    let duplicates = report
        .notices
        .iter()
        .filter(|n| matches!(n.remark, Remark::DuplicateType))
        .count();
    assert_eq!(duplicates, 2);
    let set = report.into_result().unwrap();
    assert_eq!(set.types.len(), 2);
    assert_eq!(set.types.get("Game").unwrap().nice, Some(3));
    assert_eq!(set.types.get("Other").unwrap().nice, Some(4));
}

#[test]
fn rules_keep_the_order_of_files_and_directories() {
    let dirs = vec![
        dir("a", vec![], vec![file("a/1.rules", vec![rule("z"), rule("y")])]),
        None,
        dir("b", vec![], vec![
            file("b/1.rules", vec![rule("x")]),
            file("b/2.rules", vec![rule("z")]),
        ]),
    ];
    let set = RuleSet::load_from_dirs(&dirs).unwrap();
    assert_eq!(names(&set), vec!["z", "y", "x", "z"]);
}

#[test]
fn missing_directories_are_skipped() {
    let set = RuleSet::load_from_dirs(&vec![None, None]).unwrap();
    assert!(set.rules.is_empty());
    assert_eq!(set.types.len(), 0);
}

#[test]
fn bad_lines_do_not_affect_the_others() {
    let bad = |number: usize, problem: EntryProblem| Entry {
        number,
        unknown: Vec::new(),
        value: Err(problem),
    };
    let mut blank = rule("  ");
    blank.number = 5;
    let entries = vec![
        rule("a"),
        bad(2, EntryProblem::Malformed("eof".into())),
        bad(3, EntryProblem::NotObject),
        bad(4, EntryProblem::Invalid("nice".into())),
        blank,
        rule("b"),
    ];
    let report = RuleSet::load_report(&vec![dir("d", vec![], vec![file("d/f.rules", entries)])]);
    assert_eq!(names(&report.set), vec!["a", "b"]);
    let lines: Vec<usize> = report.notices.iter().map(|n| n.line).collect();
    assert_eq!(lines, vec![2, 3, 4, 5]);
    assert!(report.notices.iter().all(|n| n.path == "d/f.rules"));
    assert!(matches!(&report.notices[0].remark, Remark::Malformed(why) if why == "eof"));
    assert!(matches!(report.notices[1].remark, Remark::NotObject));
    assert!(matches!(&report.notices[2].remark, Remark::InvalidRule(why) if why == "nice"));
    assert!(matches!(report.notices[3].remark, Remark::MissingRuleName));
}

#[test]
fn type_lines_are_remarked_on() {
    let mut odd = preset("Game", 1);
    odd.unknown = vec!["extra".into()];
    if let Ok(t) = &mut odd.value {
        t.sched = Some("rr".into());
    }
    let invalid: Entry<TypeDef> = Entry {
        number: 2,
        unknown: Vec::new(),
        value: Err(EntryProblem::Invalid("nice".into())),
    };
    let entries = vec![odd, invalid, preset(" \t", 2)];
    let report = RuleSet::load_report(&vec![dir("d", vec![file("d/f.types", entries)], vec![])]);
    assert_eq!(report.set.types.len(), 1);
    assert_eq!(report.notices.len(), 4);
    assert!(matches!(&report.notices[0].remark, Remark::UnknownFields(f) if f == &vec!["extra".to_string()]));
    assert!(matches!(report.notices[1].remark, Remark::SchedIgnored));
    assert!(matches!(report.notices[2].remark, Remark::InvalidType(_)));
    assert!(matches!(report.notices[3].remark, Remark::MissingTypeName));
}

#[test]
fn cgroups_files_are_ignored_with_a_warning() {
    let mut d = dir("d", vec![], vec![]).unwrap();
    d.cgroup_files = vec!["d/00.cgroups".into()];
    let report = RuleSet::load_report(&vec![Some(d)]);
    assert_eq!(report.notices.len(), 1);
    assert_eq!(report.notices[0].path, "d/00.cgroups");
    assert!(matches!(report.notices[0].remark, Remark::CgroupsIgnored));
    assert!(report.failure.is_none());
}

#[test]
fn unreadable_file_fails_the_load() {
    let broken: SourceFile<Rule> = SourceFile {
        path: "b/2.rules".into(),
        entries: Err("denied".into()),
    };
    let dirs = vec![
        dir("a", vec![], vec![file("a/1.rules", vec![rule("kept")])]),
        dir("b", vec![], vec![broken, file("b/3.rules", vec![rule("never")])]),
        dir("c", vec![file("c/1.types", vec![preset("Never", 1)])], vec![]),
    ];
    let report = RuleSet::load_report(&dirs);
    assert_eq!(names(&report.set), vec!["kept"]);
    assert_eq!(report.set.types.len(), 0);
    let error = report.into_result().err().unwrap();
    assert_eq!(error.dir, "b");
    assert_eq!(error.file, "b/2.rules");
    assert_eq!(error.reason, "denied");
    assert!(RuleSet::load_from_dirs(&dirs).is_err());
}

#[test]
fn one_file_can_be_loaded_by_itself() {
    let mut report = LoadReport::new();
    report.load_types_file(&"d".to_string(), &file("d/t.types", vec![preset("A", 1)]));
    report.load_rules_file(&"d".to_string(), &file("d/r.rules", vec![rule("a")]));
    assert_eq!(report.set.types.len(), 1);
    assert_eq!(names(&report.set), vec!["a"]);
}

#[test]
fn files_load_in_path_order() {
    let paths = ["d/b.rules", "d/a.rules", "d/10.rules", "d/a-b.rules", "d/2.rules"];
    let files: Vec<SourceFile<Rule>> = paths.iter().map(|p| file(p, vec![rule(p)])).collect();
    let ordered: Vec<&str> = load_order(&files).into_iter().map(|i| paths[i]).collect();
    assert_eq!(
        ordered,
        vec!["d/10.rules", "d/2.rules", "d/a-b.rules", "d/a.rules", "d/b.rules"]
    );
    let mut as_paths: Vec<std::path::PathBuf> = paths.iter().map(std::path::PathBuf::from).collect();
    as_paths.sort();
    let texts: Vec<String> = as_paths.iter().map(|p| p.to_string_lossy().into_owned()).collect();
    assert_eq!(ordered, texts);

    let set = RuleSet::load_from_dirs(&vec![dir("d", vec![], files)]).unwrap();
    assert_eq!(names(&set), texts);
}

#[test]
fn last_type_file_in_path_order_wins() {
    let files = vec![
        file("d/2.types", vec![preset("Game", 2)]),
        file("d/1.types", vec![preset("Game", 1), preset("Other", 5)]),
    ];
    let set = RuleSet::load_from_dirs(&vec![dir("d", files, vec![])]).unwrap();
    assert_eq!(set.types.get("Game").unwrap().nice, Some(2));
    assert_eq!(set.types.get("Other").unwrap().nice, Some(5));
}

#[test]
fn equal_paths_keep_the_given_order() {
    let files = vec![file("d/x", vec![rule("first")]), file("d/x", vec![rule("second")])];
    assert_eq!(load_order(&files), vec![0, 1]);
}

#[test]
fn checked_lines_make_entries() {
    let e = entry_from(4, LineCheck::Object { unknown: vec!["x".into()] }, Ok(9u8));
    assert_eq!((e.number, e.unknown.len()), (4, 1));
    assert!(matches!(e.value, Ok(9)));
    let e = entry_from(4, LineCheck::Object { unknown: vec![] }, Err::<u8, _>("bad".into()));
    assert!(matches!(e.value, Err(EntryProblem::Invalid(why)) if why == "bad"));
    let e = entry_from(4, LineCheck::NotObject, Ok(9u8));
    assert!(matches!(e.value, Err(EntryProblem::NotObject)));
    let e = entry_from(4, LineCheck::Malformed("eof".into()), Ok(9u8));
    assert!(matches!(e.value, Err(EntryProblem::Malformed(why)) if why == "eof"));
}
