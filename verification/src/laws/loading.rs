//! Loading: which entries of which files count, and what is told about the others.

use vstd::prelude::*;

use crate::laws::text::{is_blank, law_blank_means_nothing_left};
use crate::rules::loader::{
    after_dir, after_dirs, after_rule_file, after_rule_files, after_type_file, after_type_files,
    cgroup_notices, dir_entries, entries_up_to_file, in_path_order, is_named, is_readable,
    law_directory_is_its_entries, law_earlier_directories_come_first,
    law_files_load_in_path_order, law_only_unreadable_files_fail, noted, nothing_loaded,
    rule_entry_notices, rule_in, rule_notices, rule_problem, rules_after, type_entry_notices,
    type_in, type_notices, type_problem, types_after, Entry, EntryProblem, LoadView, NoticeView,
    RemarkView, RulesDir, SourceFile,
};
use crate::rules::types::{Rule, RuleView, TypeDef, TypeDefView};
use crate::text::texts;

verus! {

/// Whether an entry was decoded to this preset, and the preset has a name that is not blank.
pub open spec fn defines(e: Entry<TypeDef>, t: TypeDefView) -> bool {
    e.value matches Ok(found) && found@ == t && !is_blank(t.name)
}

/// Whether an entry was decoded to this rule, and the rule has a name that is not blank.
pub open spec fn offers(e: Entry<Rule>, r: RuleView) -> bool {
    e.value matches Ok(found) && found@ == r && !is_blank(r.name)
}

proof fn lemma_type_in(e: Entry<TypeDef>, t: TypeDefView)
    ensures
        type_in(e) == Some(t) <==> defines(e, t),
{
    if let Ok(found) = e.value {
        law_blank_means_nothing_left(found@.name);
    }
}

proof fn lemma_rule_in(e: Entry<Rule>, r: RuleView)
    ensures
        rule_in(e) == Some(r) <==> offers(e, r),
{
    if let Ok(found) = e.value {
        law_blank_means_nothing_left(found@.name);
    }
}

/// An entry that defines a preset sets it under its name; any other leaves the presets as they
/// are.
pub proof fn law_each_entry_sets_its_preset(
    types: Map<Seq<char>, TypeDefView>,
    entries: Seq<Entry<TypeDef>>,
    n: int,
    t: TypeDefView,
)
    requires
        0 <= n < entries.len(),
    ensures
        types_after(types, entries, 0) == types,
        defines(entries[n], t) ==> types_after(types, entries, n + 1) == types_after(
            types,
            entries,
            n,
        ).insert(t.name, t),
        (forall|any: TypeDefView| !#[trigger] defines(entries[n], any)) ==> types_after(
            types,
            entries,
            n + 1,
        ) == types_after(types, entries, n),
{
    lemma_type_in(entries[n], t);
    if type_in(entries[n]) is Some {
        lemma_type_in(entries[n], type_in(entries[n])->0);
    }
}

/// An entry that offers a rule adds it behind the others; any other leaves the rules as they are.
pub proof fn law_each_entry_adds_its_rule(
    rules: Seq<RuleView>,
    entries: Seq<Entry<Rule>>,
    n: int,
    r: RuleView,
)
    requires
        0 <= n < entries.len(),
    ensures
        rules_after(rules, entries, 0) == rules,
        offers(entries[n], r) ==> rules_after(rules, entries, n + 1) == rules_after(
            rules,
            entries,
            n,
        ) + seq![r],
        (forall|any: RuleView| !#[trigger] offers(entries[n], any)) ==> rules_after(
            rules,
            entries,
            n + 1,
        ) == rules_after(rules, entries, n),
{
    lemma_rule_in(entries[n], r);
    if rule_in(entries[n]) is Some {
        lemma_rule_in(entries[n], rule_in(entries[n])->0);
    }
}

proof fn lemma_rules_hold(
    rules: Seq<RuleView>,
    entries: Seq<Entry<Rule>>,
    n: int,
    r: RuleView,
)
    requires
        0 <= n <= entries.len(),
    ensures
        rules_after(rules, entries, n).contains(r) <==> rules.contains(r) || exists|i: int|
            0 <= i < n && offers(#[trigger] entries[i], r),
    decreases n,
{
    if n > 0 {
        lemma_rules_hold(rules, entries, n - 1, r);
        lemma_rule_in(entries[n - 1], r);
        let before = rules_after(rules, entries, n - 1);
        let after = rules_after(rules, entries, n);
        if before.contains(r) {
            let k = choose|k: int| 0 <= k < before.len() && before[k] == r;
            assert(after[k] == r);
        }
        if offers(entries[n - 1], r) {
            assert(after[before.len() as int] == r);
        }
        if after.contains(r) {
            let k = choose|k: int| 0 <= k < after.len() && after[k] == r;
            if k < before.len() {
                assert(before[k] == r);
            } else {
                assert(rule_in(entries[n - 1]) == Some(r));
                assert(offers(entries[n - 1], r));
            }
        }
    }
}

proof fn lemma_types_hold(
    types: Map<Seq<char>, TypeDefView>,
    entries: Seq<Entry<TypeDef>>,
    n: int,
    name: Seq<char>,
)
    requires
        0 <= n <= entries.len(),
    ensures
        types_after(types, entries, n).contains_key(name) <==> types.contains_key(name) || exists|
            i: int,
            t: TypeDefView,
        |
            0 <= i < n && #[trigger] defines(entries[i], t) && t.name == name,
    decreases n,
{
    if n > 0 {
        lemma_types_hold(types, entries, n - 1, name);
        if type_in(entries[n - 1]) is Some {
            lemma_type_in(entries[n - 1], type_in(entries[n - 1])->0);
        }
        if exists|t: TypeDefView| #[trigger] defines(entries[n - 1], t) && t.name == name {
            let t = choose|t: TypeDefView| #[trigger] defines(entries[n - 1], t) && t.name == name;
            lemma_type_in(entries[n - 1], t);
        }
    }
}

/// Whether one of the files holds this entry.
pub open spec fn among<T>(files: Seq<SourceFile<T>>, e: Entry<T>) -> bool {
    exists|i: int|
        0 <= i < files.len() && (#[trigger] files[i]).entries is Ok
            && files[i].entries->Ok_0@.contains(e)
}

proof fn lemma_up_to_file_holds<T>(files: Seq<SourceFile<T>>, n: int, e: Entry<T>)
    requires
        0 <= n <= files.len(),
    ensures
        entries_up_to_file(files, n).contains(e) <==> exists|i: int|
            0 <= i < n && (#[trigger] files[i]).entries is Ok
                && files[i].entries->Ok_0@.contains(e),
    decreases n,
{
    if n > 0 {
        lemma_up_to_file_holds(files, n - 1, e);
        let before = entries_up_to_file(files, n - 1);
        let own = match files[n - 1].entries {
            Ok(entries) => entries@,
            Err(_) => seq![],
        };
        let all = entries_up_to_file(files, n);
        assert(all == before + own);
        if all.contains(e) {
            let k = choose|k: int| 0 <= k < all.len() && all[k] == e;
            if k < before.len() {
                assert(before[k] == e);
            } else {
                assert(own[k - before.len()] == e);
            }
        }
        if before.contains(e) {
            let k = choose|k: int| 0 <= k < before.len() && before[k] == e;
            assert(all[k] == e);
        }
        if own.contains(e) {
            let k = choose|k: int| 0 <= k < own.len() && own[k] == e;
            assert(all[before.len() + k] == e);
        }
    }
}

proof fn lemma_dir_entries_hold<T>(files: Seq<SourceFile<T>>, e: Entry<T>)
    ensures
        dir_entries(files).contains(e) <==> among(files, e),
{
    let ordered = in_path_order(files);
    law_files_load_in_path_order(files);
    lemma_up_to_file_holds(ordered, files.len() as int, e);
    if among(files, e) {
        let i = choose|i: int|
            0 <= i < files.len() && (#[trigger] files[i]).entries is Ok
                && files[i].entries->Ok_0@.contains(e);
        assert(ordered.contains(files[i]));
        let k = choose|k: int| 0 <= k < ordered.len() && ordered[k] == files[i];
        assert(ordered[k].entries is Ok);
    }
    if dir_entries(files).contains(e) {
        let k = choose|k: int|
            0 <= k < files.len() && (#[trigger] ordered[k]).entries is Ok
                && ordered[k].entries->Ok_0@.contains(e);
        assert(files.contains(ordered[k]));
        let i = choose|i: int| 0 <= i < files.len() && files[i] == ordered[k];
        assert(files[i].entries is Ok);
    }
}

/// A directory that can be read adds every rule that an entry of one of its rule files offers, and
/// no other.
pub proof fn law_every_rule_of_a_directory_is_loaded(s: LoadView, dir: RulesDir, r: RuleView)
    requires
        s.failure is None,
        is_readable(dir),
    ensures
        after_dir(s, dir).set.rules.contains(r) <==> s.set.rules.contains(r) || exists|
            e: Entry<Rule>,
        |
            among(dir.rule_files@, e) && #[trigger] offers(e, r),
{
    law_directory_is_its_entries(s, dir);
    let entries = dir_entries(dir.rule_files@);
    lemma_rules_hold(s.set.rules, entries, entries.len() as int, r);
    if exists|i: int| 0 <= i < entries.len() && offers(#[trigger] entries[i], r) {
        let i = choose|i: int| 0 <= i < entries.len() && offers(#[trigger] entries[i], r);
        lemma_dir_entries_hold(dir.rule_files@, entries[i]);
    }
    if exists|e: Entry<Rule>| among(dir.rule_files@, e) && #[trigger] offers(e, r) {
        let e = choose|e: Entry<Rule>| among(dir.rule_files@, e) && #[trigger] offers(e, r);
        lemma_dir_entries_hold(dir.rule_files@, e);
        let i = choose|i: int| 0 <= i < entries.len() && entries[i] == e;
        assert(offers(entries[i], r));
    }
}

/// A directory that can be read defines every preset that an entry of one of its type files
/// defines, and no other.
pub proof fn law_every_preset_of_a_directory_is_loaded(s: LoadView, dir: RulesDir, name: Seq<char>)
    requires
        s.failure is None,
        is_readable(dir),
    ensures
        after_dir(s, dir).set.types.contains_key(name) <==> s.set.types.contains_key(name)
            || exists|e: Entry<TypeDef>, t: TypeDefView|
            among(dir.type_files@, e) && #[trigger] defines(e, t) && t.name == name,
{
    law_directory_is_its_entries(s, dir);
    let entries = dir_entries(dir.type_files@);
    lemma_types_hold(s.set.types, entries, entries.len() as int, name);
    if exists|i: int, t: TypeDefView|
        0 <= i < entries.len() && #[trigger] defines(entries[i], t) && t.name == name {
        let (i, t) = choose|i: int, t: TypeDefView|
            0 <= i < entries.len() && #[trigger] defines(entries[i], t) && t.name == name;
        lemma_dir_entries_hold(dir.type_files@, entries[i]);
    }
    if exists|e: Entry<TypeDef>, t: TypeDefView|
        among(dir.type_files@, e) && #[trigger] defines(e, t) && t.name == name {
        let (e, t) = choose|e: Entry<TypeDef>, t: TypeDefView|
            among(dir.type_files@, e) && #[trigger] defines(e, t) && t.name == name;
        lemma_dir_entries_hold(dir.type_files@, e);
        let i = choose|i: int| 0 <= i < entries.len() && entries[i] == e;
        assert(defines(entries[i], t));
    }
}

/// Loading starts with nothing, and where nothing fails it ends with every rule that an entry of
/// a rule file of one of the directories offers.
pub proof fn law_every_rule_is_loaded(
    dirs: Seq<Option<RulesDir>>,
    k: int,
    e: Entry<Rule>,
    r: RuleView,
)
    requires
        after_dirs(nothing_loaded(), dirs, dirs.len() as int).failure is None,
        0 <= k < dirs.len(),
        dirs[k] is Some,
        among(dirs[k]->0.rule_files@, e),
        offers(e, r),
    ensures
        after_dirs(nothing_loaded(), dirs, dirs.len() as int).set.rules.contains(r),
        nothing_loaded().set.rules.len() == 0,
        nothing_loaded().set.types.dom() == Set::<Seq<char>>::empty(),
        nothing_loaded().notices.len() == 0,
        nothing_loaded().failure is None,
{
    let n = dirs.len() as int;
    law_only_unreadable_files_fail(nothing_loaded(), dirs, n);
    law_only_unreadable_files_fail(nothing_loaded(), dirs, k);
    law_only_unreadable_files_fail(nothing_loaded(), dirs, k + 1);
    law_every_rule_of_a_directory_is_loaded(
        after_dirs(nothing_loaded(), dirs, k),
        dirs[k]->0,
        r,
    );
    law_earlier_directories_come_first(nothing_loaded(), dirs, k + 1, n);
    let early = after_dirs(nothing_loaded(), dirs, k + 1).set.rules;
    let late = after_dirs(nothing_loaded(), dirs, n).set.rules;
    let i = choose|i: int| 0 <= i < early.len() && early[i] == r;
    assert(late.subrange(0, early.len() as int)[i] == late[i]);
}

/// A file that was read keeps the warnings so far in front of its own; one that was not ends the
/// loading, which names the directory, the file and the reason and keeps the rest. A load that has
/// failed stays as it is.
pub proof fn law_one_file_at_a_time(
    s: LoadView,
    dir: Seq<char>,
    types: SourceFile<TypeDef>,
    rules: SourceFile<Rule>,
)
    ensures
        s.failure is Some ==> after_type_file(s, dir, types) == s && after_rule_file(s, dir, rules)
            == s,
        s.failure is None && types.entries is Err ==> after_type_file(s, dir, types) == (LoadView {
            set: s.set,
            notices: s.notices,
            failure: Some((dir, types.path@, types.entries->Err_0@)),
        }),
        s.failure is None && rules.entries is Err ==> after_rule_file(s, dir, rules) == (LoadView {
            set: s.set,
            notices: s.notices,
            failure: Some((dir, rules.path@, rules.entries->Err_0@)),
        }),
        s.failure is None && types.entries is Ok ==> {
            let entries = types.entries->Ok_0@;
            let after = after_type_file(s, dir, types);
            &&& after.failure is None
            &&& after.set.rules == s.set.rules
            &&& after.set.types == types_after(s.set.types, entries, entries.len() as int)
            &&& after.notices == s.notices + type_notices(
                s.set.types,
                types.path@,
                entries,
                entries.len() as int,
            )
        },
        s.failure is None && rules.entries is Ok ==> {
            let entries = rules.entries->Ok_0@;
            let after = after_rule_file(s, dir, rules);
            &&& after.failure is None
            &&& after.set.types == s.set.types
            &&& after.set.rules == rules_after(s.set.rules, entries, entries.len() as int)
            &&& after.notices == s.notices + rule_notices(
                rules.path@,
                entries,
                entries.len() as int,
            )
        },
{
}

/// The first file that cannot be read is the one that is named, and nothing after it is loaded.
pub proof fn law_first_unreadable_file_is_named(
    s: LoadView,
    dir: Seq<char>,
    types: Seq<SourceFile<TypeDef>>,
    rules: Seq<SourceFile<Rule>>,
    k: int,
    n: int,
)
    requires
        0 <= k < n,
    ensures
        n <= types.len() && after_type_files(s, dir, types, k).failure is None && types[k].entries
            is Err ==> after_type_files(s, dir, types, n) == (LoadView {
            set: after_type_files(s, dir, types, k).set,
            notices: after_type_files(s, dir, types, k).notices,
            failure: Some((dir, types[k].path@, types[k].entries->Err_0@)),
        }),
        n <= rules.len() && after_rule_files(s, dir, rules, k).failure is None && rules[k].entries
            is Err ==> after_rule_files(s, dir, rules, n) == (LoadView {
            set: after_rule_files(s, dir, rules, k).set,
            notices: after_rule_files(s, dir, rules, k).notices,
            failure: Some((dir, rules[k].path@, rules[k].entries->Err_0@)),
        }),
    decreases n,
{
    if n > k + 1 {
        law_first_unreadable_file_is_named(s, dir, types, rules, k, n - 1);
    }
}

proof fn lemma_contains_concat(a: Seq<NoticeView>, b: Seq<NoticeView>, x: NoticeView)
    ensures
        (a + b).contains(x) <==> a.contains(x) || b.contains(x),
{
    if a.contains(x) {
        let i = choose|i: int| 0 <= i < a.len() && a[i] == x;
        assert((a + b)[i] == x);
    }
    if b.contains(x) {
        let i = choose|i: int| 0 <= i < b.len() && b[i] == x;
        assert((a + b)[a.len() + i] == x);
    }
    if (a + b).contains(x) {
        let i = choose|i: int| 0 <= i < (a + b).len() && (a + b)[i] == x;
        if i < a.len() {
            assert(a[i] == x);
        } else {
            assert(b[i - a.len()] == x);
        }
    }
}

proof fn lemma_noted(
    condition: bool,
    path: Seq<char>,
    line: int,
    remark: RemarkView,
    x: NoticeView,
)
    ensures
        noted(condition, path, line, remark).contains(x) <==> condition && x == (NoticeView {
            path,
            line,
            remark,
        }),
{
    if condition {
        assert(noted(condition, path, line, remark)[0] == (NoticeView { path, line, remark }));
    }
}

/// A line of a type file is warned about exactly for what is wrong with it, at its own path and
/// line: fields that are not known, a value that is none, no name, an ignored `sched`, or a name
/// that is defined already.
pub proof fn law_type_warnings_are_exact(
    types: Map<Seq<char>, TypeDefView>,
    path: Seq<char>,
    e: Entry<TypeDef>,
    x: NoticeView,
)
    ensures
        type_entry_notices(types, path, e).contains(x) <==> x.path == path && x.line == e.number
            && match x.remark {
            RemarkView::UnknownFields(names) => e.unknown@.len() > 0 && names == texts(e.unknown@),
            RemarkView::Malformed(why) => e.value matches Err(EntryProblem::Malformed(found))
                && found@ == why,
            RemarkView::NotObject => e.value matches Err(EntryProblem::NotObject),
            RemarkView::InvalidType(why) => e.value matches Err(EntryProblem::Invalid(found))
                && found@ == why,
            RemarkView::MissingTypeName => e.value is Ok && is_blank(e.value->Ok_0@.name),
            RemarkView::SchedIgnored => e.value is Ok && !is_blank(e.value->Ok_0@.name)
                && e.value->Ok_0@.sched is Some,
            RemarkView::DuplicateType => e.value is Ok && !is_blank(e.value->Ok_0@.name)
                && types.contains_key(e.value->Ok_0@.name),
            RemarkView::InvalidRule(_) => false,
            RemarkView::MissingRuleName => false,
            RemarkView::CgroupsIgnored => false,
        },
{
    let line = e.number as int;
    let unknown = RemarkView::UnknownFields(texts(e.unknown@));
    lemma_noted(e.unknown@.len() > 0, path, line, unknown, x);
    let first = noted(e.unknown@.len() > 0, path, line, unknown);
    match e.value {
        Ok(t) => {
            law_blank_means_nothing_left(t@.name);
            if is_named(t@.name) {
                let sched = noted(t@.sched is Some, path, line, RemarkView::SchedIgnored);
                let again = noted(
                    types.contains_key(t@.name),
                    path,
                    line,
                    RemarkView::DuplicateType,
                );
                lemma_noted(t@.sched is Some, path, line, RemarkView::SchedIgnored, x);
                lemma_noted(
                    types.contains_key(t@.name),
                    path,
                    line,
                    RemarkView::DuplicateType,
                    x,
                );
                lemma_contains_concat(sched, again, x);
                lemma_contains_concat(first, sched + again, x);
            } else {
                let missing = noted(true, path, line, RemarkView::MissingTypeName);
                lemma_noted(true, path, line, RemarkView::MissingTypeName, x);
                lemma_contains_concat(first, missing, x);
            }
        },
        Err(p) => {
            let problem = type_problem(p);
            lemma_noted(true, path, line, problem, x);
            lemma_contains_concat(first, noted(true, path, line, problem), x);
        },
    }
}

/// A line of a rule file is warned about exactly for what is wrong with it, at its own path and
/// line: fields that are not known, a value that is none, or no name.
pub proof fn law_rule_warnings_are_exact(path: Seq<char>, e: Entry<Rule>, x: NoticeView)
    ensures
        rule_entry_notices(path, e).contains(x) <==> x.path == path && x.line == e.number
            && match x.remark {
            RemarkView::UnknownFields(names) => e.unknown@.len() > 0 && names == texts(e.unknown@),
            RemarkView::Malformed(why) => e.value matches Err(EntryProblem::Malformed(found))
                && found@ == why,
            RemarkView::NotObject => e.value matches Err(EntryProblem::NotObject),
            RemarkView::InvalidRule(why) => e.value matches Err(EntryProblem::Invalid(found))
                && found@ == why,
            RemarkView::MissingRuleName => e.value is Ok && is_blank(e.value->Ok_0@.name),
            RemarkView::InvalidType(_) => false,
            RemarkView::MissingTypeName => false,
            RemarkView::SchedIgnored => false,
            RemarkView::DuplicateType => false,
            RemarkView::CgroupsIgnored => false,
        },
{
    let line = e.number as int;
    let unknown = RemarkView::UnknownFields(texts(e.unknown@));
    lemma_noted(e.unknown@.len() > 0, path, line, unknown, x);
    let first = noted(e.unknown@.len() > 0, path, line, unknown);
    match e.value {
        Ok(r) => {
            law_blank_means_nothing_left(r@.name);
            let missing = noted(!is_named(r@.name), path, line, RemarkView::MissingRuleName);
            lemma_noted(!is_named(r@.name), path, line, RemarkView::MissingRuleName, x);
            lemma_contains_concat(first, missing, x);
        },
        Err(p) => {
            let problem = rule_problem(p);
            lemma_noted(true, path, line, problem, x);
            lemma_contains_concat(first, noted(true, path, line, problem), x);
        },
    }
}

/// The warnings about a file are those about its lines, in the order of the lines, each judged by
/// the presets that the lines before it have left.
pub proof fn law_warnings_follow_the_lines(
    types: Map<Seq<char>, TypeDefView>,
    path: Seq<char>,
    type_entries: Seq<Entry<TypeDef>>,
    rule_entries: Seq<Entry<Rule>>,
    n: int,
)
    requires
        0 <= n,
    ensures
        type_notices(types, path, type_entries, 0).len() == 0,
        rule_notices(path, rule_entries, 0).len() == 0,
        n < type_entries.len() ==> type_notices(types, path, type_entries, n + 1) == type_notices(
            types,
            path,
            type_entries,
            n,
        ) + type_entry_notices(types_after(types, type_entries, n), path, type_entries[n]),
        n < rule_entries.len() ==> rule_notices(path, rule_entries, n + 1) == rule_notices(
            path,
            rule_entries,
            n,
        ) + rule_entry_notices(path, rule_entries[n]),
{
}

/// The files of a directory are loaded type files first; a `.cgroups` file is told to be ignored,
/// by its path, where nothing failed.
pub proof fn law_directory_ends_with_ignored_files(s: LoadView, dir: RulesDir, i: int)
    requires
        after_dir(s, dir).failure is None,
        0 <= i < dir.cgroup_files@.len(),
    ensures
        ({
            let after = after_dir(s, dir);
            let ordered_types = in_path_order(dir.type_files@);
            let ordered_rules = in_path_order(dir.rule_files@);
            let types = after_type_files(
                s,
                dir.path@,
                ordered_types,
                dir.type_files@.len() as int,
            );
            let rules = after_rule_files(
                types,
                dir.path@,
                ordered_rules,
                dir.rule_files@.len() as int,
            );
            &&& after.set == rules.set
            &&& rules.notices.is_prefix_of(after.notices)
            &&& after.notices.len() == rules.notices.len() + dir.cgroup_files@.len()
            &&& after.notices[rules.notices.len() + i] == (NoticeView {
                path: dir.cgroup_files@[i]@,
                line: 0,
                remark: RemarkView::CgroupsIgnored,
            })
        }),
{
    let told = cgroup_notices(texts(dir.cgroup_files@));
    assert(told[i].path == dir.cgroup_files@[i]@);
    let types = after_type_files(
        s,
        dir.path@,
        in_path_order(dir.type_files@),
        dir.type_files@.len() as int,
    );
    let rules = after_rule_files(
        types,
        dir.path@,
        in_path_order(dir.rule_files@),
        dir.rule_files@.len() as int,
    );
    let after = after_dir(s, dir);
    assert(after.notices.subrange(0, rules.notices.len() as int) =~= rules.notices);
}

} // verus!
