use arbiter::rules::lines::{
    check_json_object, checked_lines, entry_lines, judge_json, unknown_fields, FileKind, LineCheck,
};

#[test]
fn comments_and_blank_lines_are_no_entries() {
    let entries = entry_lines("# types\n\n  {\"type\":\"A\"}  \r\n\t# more\n{}");
    let seen: Vec<(usize, &str)> = entries.iter().map(|e| (e.number, e.text.as_str())).collect();
    assert_eq!(seen, vec![(3, "{\"type\":\"A\"}"), (5, "{}")]);
    assert!(entry_lines("").is_empty());
}

#[test]
fn white_space_beyond_ascii_is_trimmed() {
    let entries = entry_lines("\u{3000}{}\u{a0}\n\u{2003}");
    assert_eq!(entries.len(), 1);
    assert_eq!(entries[0].text, "{}");
}

#[test]
fn known_fields_depend_on_the_kind_of_file() {
    assert!(FileKind::Types.knows_field("sched"));
    assert!(!FileKind::Types.knows_field("name"));
    assert!(!FileKind::Types.knows_field("exe_pattern"));
    assert!(FileKind::Rules.knows_field("name"));
    assert!(FileKind::Rules.knows_field("cmdline_contains"));
    assert!(!FileKind::Rules.knows_field("sched"));
    for field in ["type", "nice", "ioclass", "ionice", "oom_score_adj", "cgroup", "cgroup_weight"] {
        assert!(FileKind::Types.knows_field(field));
        assert!(FileKind::Rules.knows_field(field));
    }
}

#[test]
fn unknown_fields_come_in_order() {
    let keys = vec![
        "zeta".to_string(),
        "name".to_string(),
        "alpha".to_string(),
        "latency_nice".to_string(),
    ];
    assert_eq!(
        unknown_fields(FileKind::Rules, &keys),
        vec!["alpha".to_string(), "latency_nice".to_string(), "zeta".to_string()]
    );
}

#[test]
fn objects_are_told_from_other_lines() {
    match check_json_object(FileKind::Rules, "{\"name\":\"a\",\"x\":1,\"b\":[]}") {
        LineCheck::Object { unknown } => {
            assert_eq!(unknown, vec!["b".to_string(), "x".to_string()])
        }
        other => panic!("{other:?}"),
    }
    for text in ["null", "true", "3", "\"text\"", "[1]"] {
        assert!(matches!(
            check_json_object(FileKind::Rules, text),
            LineCheck::NotObject
        ));
    }
    match check_json_object(FileKind::Types, "{\"type\":") {
        LineCheck::Malformed(reason) => assert!(reason.contains("EOF")),
        other => panic!("{other:?}"),
    }
}

#[test]
fn parser_results_are_judged() {
    assert!(matches!(
        judge_json(FileKind::Types, Ok(Some(vec!["sched".to_string()]))),
        LineCheck::Object { unknown } if unknown.is_empty()
    ));
    assert!(matches!(judge_json(FileKind::Types, Ok(None)), LineCheck::NotObject));
    assert!(matches!(
        judge_json(FileKind::Types, Err("why".to_string())),
        LineCheck::Malformed(reason) if reason == "why"
    ));
}

#[test]
fn file_text_becomes_checked_entries() {
    let all = checked_lines(FileKind::Types, "# c\n{\"type\":\"A\",\"q\":1}\n[]\n\n{");
    let numbers: Vec<usize> = all.iter().map(|(line, _)| line.number).collect();
    assert_eq!(numbers, vec![2, 3, 5]);
    assert!(matches!(&all[0].1, LineCheck::Object { unknown } if unknown == &vec!["q".to_string()]));
    assert!(matches!(all[1].1, LineCheck::NotObject));
    assert!(matches!(all[2].1, LineCheck::Malformed(_)));
}
