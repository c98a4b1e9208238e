use arbiter::applier::cgroup::{
    cgroup_base_components_for_uid, validated_cgroup_components, CgroupMove, CgroupPathError,
    CgroupStep, ControlFile, MoveStatus, StepOutcome,
};
use arbiter::rules::validator::is_acceptable_cgroup;

#[test]
fn rejects_unsafe_cgroup_paths() {
    for path in [
        "",
        "/system.slice",
        "../escape",
        "games/../escape",
        "./games",
    ] {
        assert!(
            validated_cgroup_components(path).is_err(),
            "path {path} should fail"
        );
    }
}

#[test]
fn accepts_nested_relative_cgroup_paths() {
    let parts = validated_cgroup_components("apps/games.slice").unwrap();
    let text: Vec<String> = parts;
    assert_eq!(text, vec!["apps".to_string(), "games.slice".to_string()]);
}

#[test]
fn cgroup_base_scope_is_user_local_and_arbiter_scoped() {
    let text = cgroup_base_components_for_uid(1000);

    assert_eq!(
        text,
        vec![
            "user.slice".to_string(),
            "user-1000.slice".to_string(),
            "user@1000.service".to_string(),
            "arbiter.slice".to_string(),
        ]
    );
}

#[test]
fn each_refusal_has_its_reason() {
    assert_eq!(validated_cgroup_components(""), Err(CgroupPathError::Empty));
    assert_eq!(validated_cgroup_components("/a"), Err(CgroupPathError::Absolute));
    assert_eq!(validated_cgroup_components("./a"), Err(CgroupPathError::Unsafe));
    assert_eq!(validated_cgroup_components("a/.."), Err(CgroupPathError::Unsafe));
    assert_eq!(validated_cgroup_components("a\0b"), Err(CgroupPathError::ContainsNul));
    assert_eq!(validated_cgroup_components("a\0/.."), Err(CgroupPathError::ContainsNul));
    assert_eq!(validated_cgroup_components("../a\0"), Err(CgroupPathError::Unsafe));
}

#[test]
fn repeated_separators_and_inner_dots_are_passed_over() {
    assert_eq!(
        validated_cgroup_components("a//b/./c/"),
        Ok(vec!["a".to_string(), "b".to_string(), "c".to_string()])
    );
    assert_eq!(validated_cgroup_components("a..b"), Ok(vec!["a..b".to_string()]));
    assert_eq!(validated_cgroup_components("..."), Ok(vec!["...".to_string()]));
}

fn show(step: &CgroupStep) -> String {
    match step {
        CgroupStep::OpenRoot => "root".to_string(),
        CgroupStep::MakeDir(name) => format!("mkdir {name}"),
        CgroupStep::EnterDir(name) => format!("enter {name}"),
        CgroupStep::Write { file, contents } => format!("{}={contents}", file.name()),
    }
}

#[test]
fn move_enters_the_scope_then_places_then_weighs() {
    let mut m = CgroupMove::new(7, 42, "games", Some(20_000), Some(500)).unwrap();
    let mut seen = Vec::new();
    while let Some(step) = m.current() {
        seen.push(show(step));
        m.record(StepOutcome::Done);
    }
    assert_eq!(
        seen,
        vec![
            "root",
            "mkdir user.slice",
            "enter user.slice",
            "mkdir user-7.slice",
            "enter user-7.slice",
            "mkdir user@7.service",
            "enter user@7.service",
            "mkdir arbiter.slice",
            "enter arbiter.slice",
            "mkdir games",
            "enter games",
            "cgroup.procs=42\n",
            "cpu.weight=10000\n",
            "io.weight=500\n",
        ]
    );
    assert_eq!(m.status(), MoveStatus::Moved(Some(500)));
}

#[test]
fn weights_below_the_bound_are_raised() {
    let mut m = CgroupMove::new(0, 1, "a", Some(0), None).unwrap();
    let mut last = String::new();
    while let Some(step) = m.current() {
        last = show(step);
        m.record(StepOutcome::Done);
    }
    assert_eq!(last, "cpu.weight=1\n");
    assert_eq!(m.status(), MoveStatus::Moved(None));
}

#[test]
fn existing_directories_and_missing_weights_are_tolerated() {
    let mut m = CgroupMove::new(0, 1, "a", Some(5), Some(50)).unwrap();
    loop {
        let outcome = match m.current() {
            None => break,
            Some(CgroupStep::MakeDir(_)) => StepOutcome::Exists,
            Some(CgroupStep::Write { file: ControlFile::CpuWeight, .. }) => StepOutcome::Missing,
            Some(CgroupStep::Write { file: ControlFile::IoWeight, .. }) => StepOutcome::Missing,
            Some(_) => StepOutcome::Done,
        };
        assert_eq!(m.status(), MoveStatus::Pending);
        m.record(outcome);
    }
    assert_eq!(m.status(), MoveStatus::Moved(None));
}

#[test]
fn other_failures_end_the_move() {
    let mut m = CgroupMove::new(0, 1, "a", None, None).unwrap();
    m.record(StepOutcome::Exists);
    assert_eq!(m.status(), MoveStatus::Failed);
    assert!(m.current().is_none());
    m.record(StepOutcome::Done);
    assert_eq!(m.status(), MoveStatus::Failed);

    let mut m = CgroupMove::new(0, 1, "a", None, None).unwrap();
    loop {
        let outcome = match m.current() {
            None => break,
            Some(CgroupStep::Write { file: ControlFile::Procs, .. }) => StepOutcome::Missing,
            Some(_) => StepOutcome::Done,
        };
        m.record(outcome);
    }
    assert_eq!(m.status(), MoveStatus::Failed);
}

#[test]
fn refused_path_plans_no_move() {
    assert!(matches!(
        CgroupMove::new(0, 1, "../a", None, None),
        Err(CgroupPathError::Unsafe)
    ));
}

#[test]
fn paths_that_pass_validation_can_be_entered() {
    for path in ["games", "apps/games.slice", "a//b/", "a/./b", "x."] {
        assert!(is_acceptable_cgroup(path));
        assert!(validated_cgroup_components(path).is_ok());
    }
    assert!(is_acceptable_cgroup("./a"));
    assert!(validated_cgroup_components("./a").is_err());
}
