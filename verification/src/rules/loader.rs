//! Loading a rule set from the files of its directories.
//!
//! Reading files and decoding their lines happens outside: here the decoded lines are turned
//! into a rule set, in the order that inheritance and first-match evaluation rely on.

use vstd::prelude::*;

use crate::order::{positions, TextOrder};
use crate::rules::lines::LineCheck;
use crate::rules::types::{
    empty_rule_set, rule_views, type_views, Rule, RuleSet, RuleSetView, RuleView, TypeDef,
    TypeDefView,
};
use crate::text::{copy_texts, texts, trim, trimmed};

verus! {

/// Why a line gives no preset or rule.
#[derive(Debug)]
pub enum EntryProblem {
    /// It is no JSON value, for this reason.
    Malformed(String),
    /// It is a JSON value, but no object.
    NotObject,
    /// Its fields do not have the values they should, for this reason.
    Invalid(String),
}

/// A line of a rule file, decoded.
#[derive(Debug)]
pub struct Entry<T> {
    /// The number of the line, counted from one.
    pub number: usize,
    /// The fields of the line that are not known.
    pub unknown: Vec<String>,
    /// The preset or the rule on the line.
    pub value: Result<T, EntryProblem>,
}

/// A rule file: its decoded lines, or the reason why it could not be read.
#[derive(Debug)]
pub struct SourceFile<T> {
    pub path: String,
    pub entries: Result<Vec<Entry<T>>, String>,
}

/// The files of one rules directory, each kind in any order.
#[derive(Debug)]
pub struct RulesDir {
    pub path: String,
    pub type_files: Vec<SourceFile<TypeDef>>,
    pub rule_files: Vec<SourceFile<Rule>>,
    pub cgroup_files: Vec<String>,
}

/// What there is to say about a line or a file.
#[derive(Debug)]
pub enum Remark {
    UnknownFields(Vec<String>),
    Malformed(String),
    NotObject,
    InvalidType(String),
    InvalidRule(String),
    MissingTypeName,
    MissingRuleName,
    SchedIgnored,
    DuplicateType,
    CgroupsIgnored,
}

/// What a [`Remark`] says.
#[verifier::ext_equal]
pub enum RemarkView {
    UnknownFields(Seq<Seq<char>>),
    Malformed(Seq<char>),
    NotObject,
    InvalidType(Seq<char>),
    InvalidRule(Seq<char>),
    MissingTypeName,
    MissingRuleName,
    SchedIgnored,
    DuplicateType,
    CgroupsIgnored,
}

impl View for Remark {
    type V = RemarkView;

    open spec fn view(&self) -> RemarkView {
        match self {
            Remark::UnknownFields(names) => RemarkView::UnknownFields(texts(names@)),
            Remark::Malformed(why) => RemarkView::Malformed(why@),
            Remark::NotObject => RemarkView::NotObject,
            Remark::InvalidType(why) => RemarkView::InvalidType(why@),
            Remark::InvalidRule(why) => RemarkView::InvalidRule(why@),
            Remark::MissingTypeName => RemarkView::MissingTypeName,
            Remark::MissingRuleName => RemarkView::MissingRuleName,
            Remark::SchedIgnored => RemarkView::SchedIgnored,
            Remark::DuplicateType => RemarkView::DuplicateType,
            Remark::CgroupsIgnored => RemarkView::CgroupsIgnored,
        }
    }
}

/// A warning from loading: the file, the line (zero for the whole file), and what was found.
#[derive(Debug)]
pub struct Notice {
    pub path: String,
    pub line: usize,
    pub remark: Remark,
}

/// What a [`Notice`] says.
#[verifier::ext_equal]
pub struct NoticeView {
    pub path: Seq<char>,
    pub line: int,
    pub remark: RemarkView,
}

impl View for Notice {
    type V = NoticeView;

    open spec fn view(&self) -> NoticeView {
        NoticeView { path: self.path@, line: self.line as int, remark: self.remark@ }
    }
}

/// What each notice of a sequence says.
pub open spec fn notice_views(notices: Seq<Notice>) -> Seq<NoticeView> {
    notices.map_values(|n: Notice| n@)
}

/// A file that could not be read, and the directory that it lies in.
#[derive(Debug)]
pub struct LoadError {
    pub dir: String,
    pub file: String,
    pub reason: String,
}

/// What a [`LoadError`] says.
pub type LoadErrorView = (Seq<char>, Seq<char>, Seq<char>);

impl View for LoadError {
    type V = LoadErrorView;

    open spec fn view(&self) -> LoadErrorView {
        (self.dir@, self.file@, self.reason@)
    }
}

/// What loading has come to: the rule set so far, the warnings, and the file that could not be
/// read, where there is one. Nothing is loaded after such a file.
pub struct LoadReport {
    pub set: RuleSet,
    pub notices: Vec<Notice>,
    pub failure: Option<LoadError>,
}

/// What a [`LoadReport`] holds.
#[verifier::ext_equal]
pub struct LoadView {
    pub set: RuleSetView,
    pub notices: Seq<NoticeView>,
    pub failure: Option<LoadErrorView>,
}

impl View for LoadReport {
    type V = LoadView;

    open spec fn view(&self) -> LoadView {
        LoadView {
            set: self.set@,
            notices: notice_views(self.notices@),
            failure: match self.failure {
                Some(e) => Some(e@),
                None => None,
            },
        }
    }
}

/// The report before anything is loaded.
pub open spec fn nothing_loaded() -> LoadView {
    LoadView { set: empty_rule_set(), notices: seq![], failure: None }
}

/// Whether a name is more than white space.
pub open spec fn is_named(name: Seq<char>) -> bool {
    trimmed(name).len() > 0
}

/// The preset that an entry defines.
pub open spec fn type_in(e: Entry<TypeDef>) -> Option<TypeDefView> {
    match e.value {
        Ok(t) => if is_named(t@.name) {
            Some(t@)
        } else {
            None
        },
        Err(_) => None,
    }
}

/// The rule that an entry gives.
pub open spec fn rule_in(e: Entry<Rule>) -> Option<RuleView> {
    match e.value {
        Ok(r) => if is_named(r@.name) {
            Some(r@)
        } else {
            None
        },
        Err(_) => None,
    }
}

/// The presets after the first `n` entries of a type file.
pub open spec fn types_after(
    types: Map<Seq<char>, TypeDefView>,
    entries: Seq<Entry<TypeDef>>,
    n: int,
) -> Map<Seq<char>, TypeDefView>
    decreases n,
{
    if n <= 0 {
        types
    } else {
        match type_in(entries[n - 1]) {
            Some(t) => types_after(types, entries, n - 1).insert(t.name, t),
            None => types_after(types, entries, n - 1),
        }
    }
}

/// The rules after the first `n` entries of a rule file.
pub open spec fn rules_after(rules: Seq<RuleView>, entries: Seq<Entry<Rule>>, n: int) -> Seq<
    RuleView,
>
    decreases n,
{
    if n <= 0 {
        rules
    } else {
        match rule_in(entries[n - 1]) {
            Some(r) => rules_after(rules, entries, n - 1).push(r),
            None => rules_after(rules, entries, n - 1),
        }
    }
}

/// One notice, where the condition holds.
pub open spec fn noted(condition: bool, path: Seq<char>, line: int, remark: RemarkView) -> Seq<
    NoticeView,
> {
    if condition {
        seq![NoticeView { path, line, remark }]
    } else {
        seq![]
    }
}

/// What the problem of a type entry is called.
pub open spec fn type_problem(p: EntryProblem) -> RemarkView {
    match p {
        EntryProblem::Malformed(why) => RemarkView::Malformed(why@),
        EntryProblem::NotObject => RemarkView::NotObject,
        EntryProblem::Invalid(why) => RemarkView::InvalidType(why@),
    }
}

/// What the problem of a rule entry is called.
pub open spec fn rule_problem(p: EntryProblem) -> RemarkView {
    match p {
        EntryProblem::Malformed(why) => RemarkView::Malformed(why@),
        EntryProblem::NotObject => RemarkView::NotObject,
        EntryProblem::Invalid(why) => RemarkView::InvalidRule(why@),
    }
}

/// The warnings about one entry of a type file, where these presets came before it.
pub open spec fn type_entry_notices(
    types: Map<Seq<char>, TypeDefView>,
    path: Seq<char>,
    e: Entry<TypeDef>,
) -> Seq<NoticeView> {
    let line = e.number as int;
    noted(e.unknown@.len() > 0, path, line, RemarkView::UnknownFields(texts(e.unknown@)))
        + match e.value {
        Ok(t) => if is_named(t@.name) {
            noted(t@.sched is Some, path, line, RemarkView::SchedIgnored) + noted(
                types.contains_key(t@.name),
                path,
                line,
                RemarkView::DuplicateType,
            )
        } else {
            noted(true, path, line, RemarkView::MissingTypeName)
        },
        Err(p) => noted(true, path, line, type_problem(p)),
    }
}

/// The warnings about one entry of a rule file.
pub open spec fn rule_entry_notices(path: Seq<char>, e: Entry<Rule>) -> Seq<NoticeView> {
    let line = e.number as int;
    noted(e.unknown@.len() > 0, path, line, RemarkView::UnknownFields(texts(e.unknown@)))
        + match e.value {
        Ok(r) => noted(!is_named(r@.name), path, line, RemarkView::MissingRuleName),
        Err(p) => noted(true, path, line, rule_problem(p)),
    }
}

/// The warnings about the first `n` entries of a type file.
pub open spec fn type_notices(
    types: Map<Seq<char>, TypeDefView>,
    path: Seq<char>,
    entries: Seq<Entry<TypeDef>>,
    n: int,
) -> Seq<NoticeView>
    decreases n,
{
    if n <= 0 {
        seq![]
    } else {
        type_notices(types, path, entries, n - 1) + type_entry_notices(
            types_after(types, entries, n - 1),
            path,
            entries[n - 1],
        )
    }
}

/// The warnings about the first `n` entries of a rule file.
pub open spec fn rule_notices(path: Seq<char>, entries: Seq<Entry<Rule>>, n: int) -> Seq<NoticeView>
    decreases n,
{
    if n <= 0 {
        seq![]
    } else {
        rule_notices(path, entries, n - 1) + rule_entry_notices(path, entries[n - 1])
    }
}

/// The report after one more type file of a directory.
pub open spec fn after_type_file(s: LoadView, dir: Seq<char>, f: SourceFile<TypeDef>) -> LoadView {
    if s.failure is Some {
        s
    } else {
        match f.entries {
            Ok(entries) => LoadView {
                set: RuleSetView {
                    types: types_after(s.set.types, entries@, entries@.len() as int),
                    rules: s.set.rules,
                },
                notices: s.notices + type_notices(
                    s.set.types,
                    f.path@,
                    entries@,
                    entries@.len() as int,
                ),
                failure: None,
            },
            Err(reason) => LoadView { failure: Some((dir, f.path@, reason@)), ..s },
        }
    }
}

/// The report after one more rule file of a directory.
pub open spec fn after_rule_file(s: LoadView, dir: Seq<char>, f: SourceFile<Rule>) -> LoadView {
    if s.failure is Some {
        s
    } else {
        match f.entries {
            Ok(entries) => LoadView {
                set: RuleSetView {
                    types: s.set.types,
                    rules: rules_after(s.set.rules, entries@, entries@.len() as int),
                },
                notices: s.notices + rule_notices(f.path@, entries@, entries@.len() as int),
                failure: None,
            },
            Err(reason) => LoadView { failure: Some((dir, f.path@, reason@)), ..s },
        }
    }
}

/// The report after the first `n` type files of a directory.
pub open spec fn after_type_files(
    s: LoadView,
    dir: Seq<char>,
    files: Seq<SourceFile<TypeDef>>,
    n: int,
) -> LoadView
    decreases n,
{
    if n <= 0 {
        s
    } else {
        after_type_file(after_type_files(s, dir, files, n - 1), dir, files[n - 1])
    }
}

/// The report after the first `n` rule files of a directory.
pub open spec fn after_rule_files(
    s: LoadView,
    dir: Seq<char>,
    files: Seq<SourceFile<Rule>>,
    n: int,
) -> LoadView
    decreases n,
{
    if n <= 0 {
        s
    } else {
        after_rule_file(after_rule_files(s, dir, files, n - 1), dir, files[n - 1])
    }
}

/// The paths of files.
pub open spec fn file_paths<T>(files: Seq<SourceFile<T>>) -> Seq<Seq<char>> {
    files.map_values(|f: SourceFile<T>| f.path@)
}

/// The files in the order of their paths, component by component.
pub open spec fn in_path_order<T>(files: Seq<SourceFile<T>>) -> Seq<SourceFile<T>> {
    TextOrder::PathComponents.ranking(file_paths(files), files.len() as int).map_values(
        |i: int| files[i],
    )
}

/// The files of one kind in a directory are loaded in ascending order of their paths, whatever
/// order they were found in, and each of them is loaded.
pub proof fn law_files_load_in_path_order<T>(files: Seq<SourceFile<T>>)
    ensures
        in_path_order(files).len() == files.len(),
        TextOrder::PathComponents.sorted(file_paths(in_path_order(files))),
        forall|k: int|
            0 <= k < files.len() ==> files.contains(#[trigger] in_path_order(files)[k]),
        forall|i: int| 0 <= i < files.len() ==> in_path_order(files).contains(#[trigger] files[i]),
{
    let paths = file_paths(files);
    let n = files.len() as int;
    let ranking = TextOrder::PathComponents.ranking(paths, n);
    let ordered = in_path_order(files);
    TextOrder::PathComponents.law_ranking_ascends(paths, n);
    assert forall|i: int, j: int|
        0 <= i <= j < ordered.len() implies TextOrder::PathComponents.le(
        #[trigger] file_paths(ordered)[i],
        #[trigger] file_paths(ordered)[j],
    ) by {
        assert(file_paths(ordered)[i] == paths[ranking[i]]);
        assert(file_paths(ordered)[j] == paths[ranking[j]]);
    }
    assert forall|k: int| 0 <= k < files.len() implies files.contains(
        #[trigger] ordered[k],
    ) by {
        assert(ordered[k] == files[ranking[k]]);
    }
    assert forall|i: int| 0 <= i < files.len() implies ordered.contains(#[trigger] files[i]) by {
        assert(ranking.contains(i));
        let k = choose|k: int| 0 <= k < ranking.len() && ranking[k] == i;
        assert(ordered[k] == files[i]);
    }
}

/// The warnings that `.cgroups` files are ignored.
pub open spec fn cgroup_notices(files: Seq<Seq<char>>) -> Seq<NoticeView> {
    files.map_values(
        |path: Seq<char>| NoticeView { path, line: 0, remark: RemarkView::CgroupsIgnored },
    )
}

/// The report after one more directory: its types, then its rules, each in the order of their
/// paths, then what it ignores.
pub open spec fn after_dir(s: LoadView, dir: RulesDir) -> LoadView {
    let with_types = after_type_files(
        s,
        dir.path@,
        in_path_order(dir.type_files@),
        dir.type_files@.len() as int,
    );
    let with_rules = after_rule_files(
        with_types,
        dir.path@,
        in_path_order(dir.rule_files@),
        dir.rule_files@.len() as int,
    );
    if with_rules.failure is Some {
        with_rules
    } else {
        LoadView {
            notices: with_rules.notices + cgroup_notices(texts(dir.cgroup_files@)),
            ..with_rules
        }
    }
}

/// The report after the first `n` directories; one that does not exist is passed over.
pub open spec fn after_dirs(s: LoadView, dirs: Seq<Option<RulesDir>>, n: int) -> LoadView
    decreases n,
{
    if n <= 0 {
        s
    } else {
        let before = after_dirs(s, dirs, n - 1);
        match dirs[n - 1] {
            Some(dir) => after_dir(before, dir),
            None => before,
        }
    }
}

/// The paths of files, in the order that is given.
fn paths_of<T>(files: &Vec<SourceFile<T>>) -> (out: Vec<String>)
    ensures
        texts(out@) == file_paths(files@),
{
    let mut out: Vec<String> = Vec::new();
    let mut i: usize = 0;
    while i < files.len()
        invariant
            i <= files@.len(),
            out@.len() == i,
            forall|k: int| 0 <= k < i ==> (#[trigger] out@[k])@ == files@[k].path@,
        decreases files@.len() - i,
    {
        out.push(files[i].path.clone());
        i += 1;
    }
    assert(texts(out@) =~= file_paths(files@));
    out
}

/// The order in which the files of one kind in a directory are loaded: that of their paths,
/// component by component. Each number is the position of a file.
pub fn load_order<T>(files: &Vec<SourceFile<T>>) -> (out: Vec<usize>)
    ensures
        out@.len() == files@.len(),
        forall|k: int|
            0 <= k < out@.len() ==> (#[trigger] out@[k]) < files@.len() && files@[out@[k] as int]
                == in_path_order(files@)[k],
        in_path_order(files@).len() == files@.len(),
        TextOrder::PathComponents.sorted(file_paths(in_path_order(files@))),
{
    let paths = paths_of(files);
    let out = TextOrder::PathComponents.rank_all(&paths);
    proof {
        assert(paths@.len() == texts(paths@).len());
        let ranking = positions(out@);
        TextOrder::PathComponents.law_ranking_ascends(
            file_paths(files@),
            files@.len() as int,
        );
        assert forall|k: int| 0 <= k < out@.len() implies (#[trigger] out@[k]) < files@.len()
            && files@[out@[k] as int] == in_path_order(files@)[k] by {
            assert(ranking[k] == out@[k] as int);
        }
        law_files_load_in_path_order(files@);
    }
    out
}

impl LoadReport {
    /// A report with nothing loaded.
    pub fn new() -> (r: LoadReport)
        ensures
            r@ == nothing_loaded(),
    {
        let r = LoadReport { set: RuleSet::new(), notices: Vec::new(), failure: None };
        assert(r@ =~= nothing_loaded());
        r
    }

    fn note(&mut self, condition: bool, path: &String, line: usize, remark: Remark)
        ensures
            final(self)@ == (LoadView {
                notices: old(self)@.notices + noted(condition, path@, line as int, remark@),
                ..old(self)@
            }),
    {
        if condition {
            let notice = Notice { path: path.clone(), line, remark };
            let ghost before = self.notices@;
            let ghost seen = notice@;
            self.notices.push(notice);
            assert(notice_views(self.notices@) =~= notice_views(before).push(seen));
            assert(self@.notices =~= old(self)@.notices + noted(
                condition,
                path@,
                line as int,
                remark@,
            ));
        } else {
            assert(self@.notices =~= old(self)@.notices + seq![]);
        }
    }

    fn load_type_entry(&mut self, path: &String, e: &Entry<TypeDef>)
        ensures
            final(self)@ == (LoadView {
                set: RuleSetView {
                    types: types_after(old(self)@.set.types, seq![*e], 1),
                    rules: old(self)@.set.rules,
                },
                notices: old(self)@.notices + type_entry_notices(
                    old(self)@.set.types,
                    path@,
                    *e,
                ),
                ..old(self)@
            }),
    {
        let line: usize = e.number;
        proof {
            reveal_with_fuel(types_after, 2);
        }
        self.note(
            e.unknown.len() > 0,
            path,
            line,
            Remark::UnknownFields(copy_texts(&e.unknown)),
        );
        match &e.value {
            Ok(t) => if !trim(t.name.as_str()).as_str().is_empty() {
                self.note(t.sched.is_some(), path, line, Remark::SchedIgnored);
                let is_duplicate = self.set.types.contains_key(t.name.as_str());
                self.note(is_duplicate, path, line, Remark::DuplicateType);
                let ghost types = self.set.types@;
                let copy = t.clone();
                let ghost fresh = copy@;
                self.set.types.insert(t.name.clone(), copy);
                assert(type_views(self.set.types@) =~= type_views(types).insert(
                    fresh.name,
                    fresh,
                ));
            } else {
                self.note(true, path, line, Remark::MissingTypeName);
            },
            Err(EntryProblem::Malformed(why)) => {
                self.note(true, path, line, Remark::Malformed(why.clone()));
            },
            Err(EntryProblem::NotObject) => {
                self.note(true, path, line, Remark::NotObject);
            },
            Err(EntryProblem::Invalid(why)) => {
                self.note(true, path, line, Remark::InvalidType(why.clone()));
            },
        }
        assert(self@.notices =~= old(self)@.notices + type_entry_notices(
            old(self)@.set.types,
            path@,
            *e,
        ));
    }

    fn load_rule_entry(&mut self, path: &String, e: &Entry<Rule>)
        ensures
            final(self)@ == (LoadView {
                set: RuleSetView {
                    types: old(self)@.set.types,
                    rules: rules_after(old(self)@.set.rules, seq![*e], 1),
                },
                notices: old(self)@.notices + rule_entry_notices(path@, *e),
                ..old(self)@
            }),
    {
        let line: usize = e.number;
        proof {
            reveal_with_fuel(rules_after, 2);
        }
        self.note(
            e.unknown.len() > 0,
            path,
            line,
            Remark::UnknownFields(copy_texts(&e.unknown)),
        );
        match &e.value {
            Ok(r) => if !trim(r.name.as_str()).as_str().is_empty() {
                let ghost rules = self.set.rules@;
                let copy = r.clone();
                let ghost fresh = copy@;
                self.set.rules.push(copy);
                assert(rule_views(self.set.rules@) =~= rule_views(rules).push(fresh));
            } else {
                self.note(true, path, line, Remark::MissingRuleName);
            },
            Err(EntryProblem::Malformed(why)) => {
                self.note(true, path, line, Remark::Malformed(why.clone()));
            },
            Err(EntryProblem::NotObject) => {
                self.note(true, path, line, Remark::NotObject);
            },
            Err(EntryProblem::Invalid(why)) => {
                self.note(true, path, line, Remark::InvalidRule(why.clone()));
            },
        }
        assert(self@.notices =~= old(self)@.notices + rule_entry_notices(path@, *e));
    }

    /// Load a `.types` file and merge each preset into the in-memory map.
    ///
    /// Later duplicates override earlier definitions, which mirrors the common
    /// override-by-order behavior used by layered configuration directories.
    pub fn load_types_file(&mut self, dir: &String, file: &SourceFile<TypeDef>)
        ensures
            final(self)@ == after_type_file(old(self)@, dir@, *file),
    {
        if self.failure.is_some() {
            return ;
        }
        match &file.entries {
            Ok(entries) => {
                let ghost start = self@;
                let mut i: usize = 0;
                assert(start.notices =~= start.notices + type_notices(
                    start.set.types,
                    file.path@,
                    entries@,
                    0,
                ));
                while i < entries.len()
                    invariant
                        i <= entries@.len(),
                        start.failure is None,
                        self@ == (LoadView {
                            set: RuleSetView {
                                types: types_after(start.set.types, entries@, i as int),
                                rules: start.set.rules,
                            },
                            notices: start.notices + type_notices(
                                start.set.types,
                                file.path@,
                                entries@,
                                i as int,
                            ),
                            failure: None,
                        }),
                    decreases entries@.len() - i,
                {
                    let ghost before = self@;
                    self.load_type_entry(&file.path, &entries[i]);
                    proof {
                        let e = entries@[i as int];
                        reveal_with_fuel(types_after, 2);
                        assert(types_after(before.set.types, seq![e], 1) == types_after(
                            start.set.types,
                            entries@,
                            i + 1,
                        ));
                        assert(self@.notices =~= start.notices + type_notices(
                            start.set.types,
                            file.path@,
                            entries@,
                            i + 1,
                        ));
                    }
                    i += 1;
                }
            },
            Err(reason) => {
                self.failure = Some(
                    LoadError { dir: dir.clone(), file: file.path.clone(), reason: reason.clone() },
                );
            },
        }
    }

    /// Load a `.rules` file and append each valid rule to the rule list.
    ///
    /// Rules are kept in file order so validation and matching preserve the same
    /// first-match semantics users see in the source files.
    pub fn load_rules_file(&mut self, dir: &String, file: &SourceFile<Rule>)
        ensures
            final(self)@ == after_rule_file(old(self)@, dir@, *file),
    {
        if self.failure.is_some() {
            return ;
        }
        match &file.entries {
            Ok(entries) => {
                let ghost start = self@;
                let mut i: usize = 0;
                assert(start.notices =~= start.notices + rule_notices(file.path@, entries@, 0));
                while i < entries.len()
                    invariant
                        i <= entries@.len(),
                        start.failure is None,
                        self@ == (LoadView {
                            set: RuleSetView {
                                types: start.set.types,
                                rules: rules_after(start.set.rules, entries@, i as int),
                            },
                            notices: start.notices + rule_notices(
                                file.path@,
                                entries@,
                                i as int,
                            ),
                            failure: None,
                        }),
                    decreases entries@.len() - i,
                {
                    let ghost before = self@;
                    self.load_rule_entry(&file.path, &entries[i]);
                    proof {
                        let e = entries@[i as int];
                        reveal_with_fuel(rules_after, 2);
                        assert(rules_after(before.set.rules, seq![e], 1) == rules_after(
                            start.set.rules,
                            entries@,
                            i + 1,
                        ));
                        assert(self@.notices =~= start.notices + rule_notices(
                            file.path@,
                            entries@,
                            i + 1,
                        ));
                    }
                    i += 1;
                }
            },
            Err(reason) => {
                self.failure = Some(
                    LoadError { dir: dir.clone(), file: file.path.clone(), reason: reason.clone() },
                );
            },
        }
    }

    fn note_cgroup_files(&mut self, files: &Vec<String>)
        ensures
            final(self)@ == (LoadView {
                notices: old(self)@.notices + cgroup_notices(texts(files@)),
                ..old(self)@
            }),
    {
        let mut i: usize = 0;
        assert(self@.notices =~= old(self)@.notices + cgroup_notices(texts(files@).take(0)));
        while i < files.len()
            invariant
                i <= files@.len(),
                self@ == (LoadView {
                    notices: old(self)@.notices + cgroup_notices(texts(files@).take(i as int)),
                    ..old(self)@
                }),
            decreases files@.len() - i,
        {
            self.note(true, &files[i], 0, Remark::CgroupsIgnored);
            assert(self@.notices =~= old(self)@.notices + cgroup_notices(
                texts(files@).take(i + 1),
            ));
            i += 1;
        }
        assert(texts(files@).take(i as int) =~= texts(files@));
    }

    /// Load one rules directory in the same order the runtime will resolve it: types before
    /// rules, and the files of each kind in ascending order of their paths. `.cgroups` files
    /// are ignored because only rule-level cgroup placement plus optional weight is supported.
    pub fn load_dir(&mut self, dir: &RulesDir)
        ensures
            final(self)@ == after_dir(old(self)@, *dir),
            TextOrder::PathComponents.sorted(file_paths(in_path_order(dir.type_files@))),
            TextOrder::PathComponents.sorted(file_paths(in_path_order(dir.rule_files@))),
            final(self)@.failure is None ==> final(self)@.set == with_entries(
                old(self)@.set,
                dir_entries(dir.type_files@),
                dir_entries(dir.rule_files@),
            ),
    {
        let ghost start = self@;
        let type_order = load_order(&dir.type_files);
        let ghost types = in_path_order(dir.type_files@);
        let mut i: usize = 0;
        while i < type_order.len()
            invariant
                i <= type_order@.len() == dir.type_files@.len(),
                forall|k: int|
                    0 <= k < type_order@.len() ==> (#[trigger] type_order@[k])
                        < dir.type_files@.len() && dir.type_files@[type_order@[k] as int]
                        == types[k],
                self@ == after_type_files(start, dir.path@, types, i as int),
            decreases type_order@.len() - i,
        {
            self.load_types_file(&dir.path, &dir.type_files[type_order[i]]);
            i += 1;
        }
        let ghost with_types = self@;
        let rule_order = load_order(&dir.rule_files);
        let ghost rules = in_path_order(dir.rule_files@);
        let mut j: usize = 0;
        while j < rule_order.len()
            invariant
                j <= rule_order@.len() == dir.rule_files@.len(),
                forall|k: int|
                    0 <= k < rule_order@.len() ==> (#[trigger] rule_order@[k])
                        < dir.rule_files@.len() && dir.rule_files@[rule_order@[k] as int]
                        == rules[k],
                self@ == after_rule_files(with_types, dir.path@, rules, j as int),
            decreases rule_order@.len() - j,
        {
            self.load_rules_file(&dir.path, &dir.rule_files[rule_order[j]]);
            j += 1;
        }
        if self.failure.is_none() {
            self.note_cgroup_files(&dir.cgroup_files);
            proof {
                law_only_unreadable_files_fail(start, seq![Some(*dir)], 1);
                reveal_with_fuel(after_dirs, 2);
                assert(seq![Some(*dir)][0] == Some(*dir));
                law_directory_is_its_entries(start, *dir);
            }
        }
    }

    /// The rule set, or the file that could not be read.
    pub fn into_result(self) -> (r: Result<RuleSet, LoadError>)
        ensures
            match r {
                Ok(set) => self@.failure is None && set@ == self@.set,
                Err(e) => self@.failure == Some(e@),
            },
    {
        match self.failure {
            Some(e) => Err(e),
            None => Ok(self.set),
        }
    }
}

impl RuleSet {
    /// Load every supported rule file from the provided directories, with the warnings.
    pub fn load_report(dirs: &Vec<Option<RulesDir>>) -> (r: LoadReport)
        ensures
            r@ == after_dirs(nothing_loaded(), dirs@, dirs@.len() as int),
    {
        let mut report = LoadReport::new();
        let mut i: usize = 0;
        while i < dirs.len()
            invariant
                i <= dirs@.len(),
                report@ == after_dirs(nothing_loaded(), dirs@, i as int),
            decreases dirs@.len() - i,
        {
            if let Some(dir) = &dirs[i] {
                report.load_dir(dir);
            }
            i += 1;
        }
        report
    }

    /// Load every supported rule file from the provided directories.
    ///
    /// Directories are processed in the order they are supplied, while each
    /// directory still loads types before rules so type inheritance is ready by
    /// the time rule entries are parsed.
    pub fn load_from_dirs(dirs: &Vec<Option<RulesDir>>) -> (r: Result<RuleSet, LoadError>)
        ensures
            match r {
                Ok(set) => {
                    let end = after_dirs(nothing_loaded(), dirs@, dirs@.len() as int);
                    end.failure is None && set@ == end.set
                },
                Err(e) => after_dirs(nothing_loaded(), dirs@, dirs@.len() as int).failure == Some(
                    e@,
                ),
            },
    {
        RuleSet::load_report(dirs).into_result()
    }
}

/// The entry that a checked line makes: what it was decoded to counts only where it is an object.
pub fn entry_from<T>(number: usize, check: LineCheck, decoded: Result<T, String>) -> (e: Entry<T>)
    ensures
        e.number == number,
        match check {
            LineCheck::Object { unknown } => texts(e.unknown@) == texts(unknown@) && match decoded {
                Ok(value) => e.value == Ok::<T, EntryProblem>(value),
                Err(why) => e.value == Err::<T, _>(EntryProblem::Invalid(why)),
            },
            LineCheck::NotObject => e.unknown@.len() == 0 && e.value == Err::<T, _>(
                EntryProblem::NotObject,
            ),
            LineCheck::Malformed(why) => e.unknown@.len() == 0 && e.value == Err::<T, _>(
                EntryProblem::Malformed(why),
            ),
        },
{
    match check {
        LineCheck::Object { unknown } => match decoded {
            Ok(value) => Entry { number, unknown, value: Ok(value) },
            Err(why) => Entry { number, unknown, value: Err(EntryProblem::Invalid(why)) },
        },
        LineCheck::NotObject => Entry {
            number,
            unknown: Vec::new(),
            value: Err(EntryProblem::NotObject),
        },
        LineCheck::Malformed(why) => Entry {
            number,
            unknown: Vec::new(),
            value: Err(EntryProblem::Malformed(why)),
        },
    }
}

/// Fields that are not known make no difference: only what the known ones were decoded to counts,
/// in type files as in rule files.
pub proof fn law_unknown_fields_change_nothing(
    set: RuleSetView,
    types: Seq<Entry<TypeDef>>,
    same_types: Seq<Entry<TypeDef>>,
    rules: Seq<Entry<Rule>>,
    same_rules: Seq<Entry<Rule>>,
    m: int,
    n: int,
)
    requires
        0 <= m <= types.len() == same_types.len(),
        0 <= n <= rules.len() == same_rules.len(),
        forall|i: int| 0 <= i < m ==> (#[trigger] types[i]).value == same_types[i].value,
        forall|i: int| 0 <= i < n ==> (#[trigger] rules[i]).value == same_rules[i].value,
    ensures
        types_after(set.types, types, m) == types_after(set.types, same_types, m),
        rules_after(set.rules, rules, n) == rules_after(set.rules, same_rules, n),
    decreases m + n,
{
    if m > 0 {
        law_unknown_fields_change_nothing(
            set,
            types,
            same_types,
            rules,
            same_rules,
            m - 1,
            n,
        );
        assert(types[m - 1].value == same_types[m - 1].value);
    } else if n > 0 {
        law_unknown_fields_change_nothing(
            set,
            types,
            same_types,
            rules,
            same_rules,
            m,
            n - 1,
        );
        assert(rules[n - 1].value == same_rules[n - 1].value);
    }
}

/// Whether an entry adds nothing to the rule set: a malformed line, one that is no object, one
/// with a bad field, or one without a name.
pub open spec fn is_skipped_type(e: Entry<TypeDef>) -> bool {
    type_in(e) is None
}

/// Whether an entry adds nothing to the rule set.
pub open spec fn is_skipped_rule(e: Entry<Rule>) -> bool {
    rule_in(e) is None
}

/// A bad line of a type file makes no difference to the other lines: without it the file gives
/// the same presets.
pub proof fn law_bad_type_line_is_isolated(
    types: Map<Seq<char>, TypeDefView>,
    entries: Seq<Entry<TypeDef>>,
    k: int,
)
    requires
        0 <= k < entries.len(),
        is_skipped_type(entries[k]),
    ensures
        types_after(types, entries.remove(k), entries.len() - 1) == types_after(
            types,
            entries,
            entries.len() as int,
        ),
{
    lemma_types_without(types, entries, k, entries.len() as int);
}

proof fn lemma_types_without(
    types: Map<Seq<char>, TypeDefView>,
    entries: Seq<Entry<TypeDef>>,
    k: int,
    n: int,
)
    requires
        0 <= k < entries.len(),
        is_skipped_type(entries[k]),
        0 <= n <= entries.len(),
    ensures
        n <= k ==> types_after(types, entries.remove(k), n) == types_after(types, entries, n),
        n > k ==> types_after(types, entries.remove(k), n - 1) == types_after(types, entries, n),
    decreases n,
{
    if n > 0 {
        lemma_types_without(types, entries, k, n - 1);
        if n <= k {
            assert(entries.remove(k)[n - 1] == entries[n - 1]);
        } else if n > k + 1 {
            assert(entries.remove(k)[n - 2] == entries[n - 1]);
        }
    }
}

/// A bad line of a rule file makes no difference to the other lines: without it the file gives
/// the same rules.
pub proof fn law_bad_rule_line_is_isolated(
    rules: Seq<RuleView>,
    entries: Seq<Entry<Rule>>,
    k: int,
)
    requires
        0 <= k < entries.len(),
        is_skipped_rule(entries[k]),
    ensures
        rules_after(rules, entries.remove(k), entries.len() - 1) == rules_after(
            rules,
            entries,
            entries.len() as int,
        ),
{
    lemma_rules_without(rules, entries, k, entries.len() as int);
}

proof fn lemma_rules_without(rules: Seq<RuleView>, entries: Seq<Entry<Rule>>, k: int, n: int)
    requires
        0 <= k < entries.len(),
        is_skipped_rule(entries[k]),
        0 <= n <= entries.len(),
    ensures
        n <= k ==> rules_after(rules, entries.remove(k), n) == rules_after(rules, entries, n),
        n > k ==> rules_after(rules, entries.remove(k), n - 1) == rules_after(rules, entries, n),
    decreases n,
{
    if n > 0 {
        lemma_rules_without(rules, entries, k, n - 1);
        if n <= k {
            assert(entries.remove(k)[n - 1] == entries[n - 1]);
        } else if n > k + 1 {
            assert(entries.remove(k)[n - 2] == entries[n - 1]);
        }
    }
}

/// The last definition of a preset in a file wins, over those before it in the file and over
/// those of earlier files.
pub proof fn law_last_definition_wins(
    types: Map<Seq<char>, TypeDefView>,
    entries: Seq<Entry<TypeDef>>,
    k: int,
    n: int,
)
    requires
        0 <= k < n <= entries.len(),
        type_in(entries[k]) is Some,
        forall|j: int|
            k < j < n && type_in(#[trigger] entries[j]) is Some ==> type_in(entries[j])->0.name
                != type_in(entries[k])->0.name,
    ensures
        types_after(types, entries, n).contains_pair(
            type_in(entries[k])->0.name,
            type_in(entries[k])->0,
        ),
    decreases n,
{
    if n - 1 > k {
        law_last_definition_wins(types, entries, k, n - 1);
    }
}

/// A preset that a file does not define stays as it was.
pub proof fn law_other_presets_stay(
    types: Map<Seq<char>, TypeDefView>,
    entries: Seq<Entry<TypeDef>>,
    name: Seq<char>,
    n: int,
)
    requires
        0 <= n <= entries.len(),
        forall|j: int|
            0 <= j < n && type_in(#[trigger] entries[j]) is Some ==> type_in(entries[j])->0.name
                != name,
    ensures
        types_after(types, entries, n).contains_key(name) == types.contains_key(name),
        types.contains_key(name) ==> types_after(types, entries, n)[name] == types[name],
    decreases n,
{
    if n > 0 {
        law_other_presets_stay(types, entries, name, n - 1);
    }
}

/// Rules keep the order of their lines, and those of earlier files come first: loading a rule
/// file only adds to the end of the rule list.
pub proof fn law_rules_keep_order(rules: Seq<RuleView>, entries: Seq<Entry<Rule>>, n: int)
    requires
        0 <= n <= entries.len(),
    ensures
        rules_after(rules, entries, n) == rules + rules_after(seq![], entries, n),
    decreases n,
{
    if n > 0 {
        law_rules_keep_order(rules, entries, n - 1);
    }
    assert(rules_after(rules, entries, n) =~= rules + rules_after(seq![], entries, n));
}

/// Type files do not touch the rules.
proof fn lemma_type_files_keep_rules(
    s: LoadView,
    dir: Seq<char>,
    files: Seq<SourceFile<TypeDef>>,
    n: int,
)
    ensures
        after_type_files(s, dir, files, n).set.rules == s.set.rules,
    decreases n,
{
    if n > 0 {
        lemma_type_files_keep_rules(s, dir, files, n - 1);
    }
}

/// Rule files do not touch the presets, and leave the rules before them in front.
proof fn lemma_rule_files_extend_rules(
    s: LoadView,
    dir: Seq<char>,
    files: Seq<SourceFile<Rule>>,
    n: int,
)
    ensures
        after_rule_files(s, dir, files, n).set.types == s.set.types,
        s.set.rules.is_prefix_of(after_rule_files(s, dir, files, n).set.rules),
    decreases n,
{
    if n > 0 {
        lemma_rule_files_extend_rules(s, dir, files, n - 1);
        let before = after_rule_files(s, dir, files, n - 1);
        match files[n - 1].entries {
            Ok(entries) => {
                law_rules_keep_order(before.set.rules, entries@, entries@.len() as int);
            },
            Err(_) => {},
        }
    }
}

/// Rules of an earlier directory come before those of a later one, so that they match first.
pub proof fn law_earlier_directories_come_first(
    s: LoadView,
    dirs: Seq<Option<RulesDir>>,
    m: int,
    n: int,
)
    requires
        0 <= m <= n <= dirs.len(),
    ensures
        after_dirs(s, dirs, m).set.rules.is_prefix_of(after_dirs(s, dirs, n).set.rules),
    decreases n,
{
    if m < n {
        law_earlier_directories_come_first(s, dirs, m, n - 1);
        let before = after_dirs(s, dirs, n - 1);
        match dirs[n - 1] {
            Some(dir) => {
                let types = in_path_order(dir.type_files@);
                law_files_load_in_path_order(dir.type_files@);
                law_files_load_in_path_order(dir.rule_files@);
                lemma_type_files_keep_rules(before, dir.path@, types, types.len() as int);
                let with_types = after_type_files(before, dir.path@, types, types.len() as int);
                let rules = in_path_order(dir.rule_files@);
                lemma_rule_files_extend_rules(with_types, dir.path@, rules, rules.len() as int);
            },
            None => {},
        }
    }
}

/// The entries of the first `n` files, one file after the other.
pub open spec fn entries_up_to_file<T>(files: Seq<SourceFile<T>>, n: int) -> Seq<Entry<T>>
    decreases n,
{
    if n <= 0 {
        seq![]
    } else {
        entries_up_to_file(files, n - 1) + match files[n - 1].entries {
            Ok(entries) => entries@,
            Err(_) => seq![],
        }
    }
}

/// The entries of the files of one kind in a directory, in ascending order of the paths.
pub open spec fn dir_entries<T>(files: Seq<SourceFile<T>>) -> Seq<Entry<T>> {
    entries_up_to_file(in_path_order(files), files.len() as int)
}

/// A rule set with all these entries loaded.
pub open spec fn with_entries(
    set: RuleSetView,
    types: Seq<Entry<TypeDef>>,
    rules: Seq<Entry<Rule>>,
) -> RuleSetView {
    RuleSetView {
        types: types_after(set.types, types, types.len() as int),
        rules: rules_after(set.rules, rules, rules.len() as int),
    }
}

proof fn lemma_types_in_two_parts(
    types: Map<Seq<char>, TypeDefView>,
    a: Seq<Entry<TypeDef>>,
    b: Seq<Entry<TypeDef>>,
    n: int,
)
    requires
        0 <= n <= a.len() + b.len(),
    ensures
        n <= a.len() ==> types_after(types, a + b, n) == types_after(types, a, n),
        n >= a.len() ==> types_after(types, a + b, n) == types_after(
            types_after(types, a, a.len() as int),
            b,
            n - a.len(),
        ),
    decreases n,
{
    if n > 0 {
        lemma_types_in_two_parts(types, a, b, n - 1);
        if n <= a.len() {
            assert((a + b)[n - 1] == a[n - 1]);
        } else {
            assert((a + b)[n - 1] == b[n - 1 - a.len()]);
        }
    }
}

proof fn lemma_rules_in_two_parts(
    rules: Seq<RuleView>,
    a: Seq<Entry<Rule>>,
    b: Seq<Entry<Rule>>,
    n: int,
)
    requires
        0 <= n <= a.len() + b.len(),
    ensures
        n <= a.len() ==> rules_after(rules, a + b, n) == rules_after(rules, a, n),
        n >= a.len() ==> rules_after(rules, a + b, n) == rules_after(
            rules_after(rules, a, a.len() as int),
            b,
            n - a.len(),
        ),
    decreases n,
{
    if n > 0 {
        lemma_rules_in_two_parts(rules, a, b, n - 1);
        if n <= a.len() {
            assert((a + b)[n - 1] == a[n - 1]);
        } else {
            assert((a + b)[n - 1] == b[n - 1 - a.len()]);
        }
    }
}

proof fn lemma_type_files_are_their_entries(
    s: LoadView,
    dir: Seq<char>,
    files: Seq<SourceFile<TypeDef>>,
    n: int,
)
    requires
        0 <= n <= files.len(),
        s.failure is None,
        forall|i: int| 0 <= i < n ==> (#[trigger] files[i]).entries is Ok,
    ensures
        after_type_files(s, dir, files, n).failure is None,
        after_type_files(s, dir, files, n).set == (RuleSetView {
            types: types_after(
                s.set.types,
                entries_up_to_file(files, n),
                entries_up_to_file(files, n).len() as int,
            ),
            rules: s.set.rules,
        }),
    decreases n,
{
    if n > 0 {
        lemma_type_files_are_their_entries(s, dir, files, n - 1);
        assert(files[n - 1].entries is Ok);
        let a = entries_up_to_file(files, n - 1);
        let b = files[n - 1].entries->Ok_0@;
        lemma_types_in_two_parts(s.set.types, a, b, (a.len() + b.len()) as int);
    }
}

proof fn lemma_rule_files_are_their_entries(
    s: LoadView,
    dir: Seq<char>,
    files: Seq<SourceFile<Rule>>,
    n: int,
)
    requires
        0 <= n <= files.len(),
        s.failure is None,
        forall|i: int| 0 <= i < n ==> (#[trigger] files[i]).entries is Ok,
    ensures
        after_rule_files(s, dir, files, n).failure is None,
        after_rule_files(s, dir, files, n).set == (RuleSetView {
            types: s.set.types,
            rules: rules_after(
                s.set.rules,
                entries_up_to_file(files, n),
                entries_up_to_file(files, n).len() as int,
            ),
        }),
    decreases n,
{
    if n > 0 {
        lemma_rule_files_are_their_entries(s, dir, files, n - 1);
        assert(files[n - 1].entries is Ok);
        let a = entries_up_to_file(files, n - 1);
        let b = files[n - 1].entries->Ok_0@;
        lemma_rules_in_two_parts(s.set.rules, a, b, (a.len() + b.len()) as int);
    }
}

/// A directory adds the entries of its type files and of its rule files, each kind in ascending
/// order of the paths, and nothing else: `.cgroups` files contribute nothing.
pub proof fn law_directory_is_its_entries(s: LoadView, dir: RulesDir)
    requires
        s.failure is None,
        is_readable(dir),
    ensures
        after_dir(s, dir).failure is None,
        after_dir(s, dir).set == with_entries(
            s.set,
            dir_entries(dir.type_files@),
            dir_entries(dir.rule_files@),
        ),
{
    let types = in_path_order(dir.type_files@);
    let rules = in_path_order(dir.rule_files@);
    law_files_load_in_path_order(dir.type_files@);
    law_files_load_in_path_order(dir.rule_files@);
    lemma_ordered_readable(dir);
    lemma_type_files_are_their_entries(s, dir.path@, types, types.len() as int);
    let with_types = after_type_files(s, dir.path@, types, types.len() as int);
    lemma_rule_files_are_their_entries(with_types, dir.path@, rules, rules.len() as int);
}

/// A directory that does not exist makes no difference.
pub proof fn law_missing_directory_is_skipped(s: LoadView, dirs: Seq<Option<RulesDir>>, k: int)
    requires
        0 <= k < dirs.len(),
        dirs[k] is None,
    ensures
        after_dirs(s, dirs.remove(k), dirs.len() - 1) == after_dirs(s, dirs, dirs.len() as int),
{
    lemma_dirs_without(s, dirs, k, dirs.len() as int);
}

proof fn lemma_dirs_without(s: LoadView, dirs: Seq<Option<RulesDir>>, k: int, n: int)
    requires
        0 <= k < dirs.len(),
        dirs[k] is None,
        0 <= n <= dirs.len(),
    ensures
        n <= k ==> after_dirs(s, dirs.remove(k), n) == after_dirs(s, dirs, n),
        n > k ==> after_dirs(s, dirs.remove(k), n - 1) == after_dirs(s, dirs, n),
    decreases n,
{
    if n > 0 {
        lemma_dirs_without(s, dirs, k, n - 1);
        if n <= k {
            assert(dirs.remove(k)[n - 1] == dirs[n - 1]);
        } else if n > k + 1 {
            assert(dirs.remove(k)[n - 2] == dirs[n - 1]);
        }
    }
}

/// Whether every file of a directory could be read.
pub open spec fn is_readable(dir: RulesDir) -> bool {
    &&& forall|i: int| 0 <= i < dir.type_files@.len() ==> (#[trigger] dir.type_files@[i]).entries is Ok
    &&& forall|i: int| 0 <= i < dir.rule_files@.len() ==> (#[trigger] dir.rule_files@[i]).entries is Ok
}

/// The order of files makes no difference to whether they could all be read.
proof fn lemma_ordered_readable(dir: RulesDir)
    ensures
        is_readable(dir) <==> {
            &&& forall|i: int|
                0 <= i < dir.type_files@.len() ==> (#[trigger] in_path_order(
                    dir.type_files@,
                )[i]).entries is Ok
            &&& forall|i: int|
                0 <= i < dir.rule_files@.len() ==> (#[trigger] in_path_order(
                    dir.rule_files@,
                )[i]).entries is Ok
        },
{
    let types = in_path_order(dir.type_files@);
    let rules = in_path_order(dir.rule_files@);
    law_files_load_in_path_order(dir.type_files@);
    law_files_load_in_path_order(dir.rule_files@);
    if is_readable(dir) {
        assert forall|i: int| 0 <= i < dir.type_files@.len() implies (
        #[trigger] types[i]).entries is Ok by {
            assert(dir.type_files@.contains(types[i]));
        }
        assert forall|i: int| 0 <= i < dir.rule_files@.len() implies (
        #[trigger] rules[i]).entries is Ok by {
            assert(dir.rule_files@.contains(rules[i]));
        }
    }
    if (forall|i: int| 0 <= i < dir.type_files@.len() ==> (#[trigger] types[i]).entries is Ok) && (
    forall|i: int| 0 <= i < dir.rule_files@.len() ==> (#[trigger] rules[i]).entries is Ok) {
        assert forall|i: int| 0 <= i < dir.type_files@.len() implies (
        #[trigger] dir.type_files@[i]).entries is Ok by {
            assert(types.contains(dir.type_files@[i]));
        }
        assert forall|i: int| 0 <= i < dir.rule_files@.len() implies (
        #[trigger] dir.rule_files@[i]).entries is Ok by {
            assert(rules.contains(dir.rule_files@[i]));
        }
    }
}

proof fn lemma_type_files_failure(
    s: LoadView,
    dir: Seq<char>,
    files: Seq<SourceFile<TypeDef>>,
    n: int,
)
    requires
        0 <= n <= files.len(),
    ensures
        after_type_files(s, dir, files, n).failure is None <==> s.failure is None && forall|i: int|
            0 <= i < n ==> (#[trigger] files[i]).entries is Ok,
    decreases n,
{
    if n > 0 {
        lemma_type_files_failure(s, dir, files, n - 1);
    }
}

proof fn lemma_rule_files_failure(
    s: LoadView,
    dir: Seq<char>,
    files: Seq<SourceFile<Rule>>,
    n: int,
)
    requires
        0 <= n <= files.len(),
    ensures
        after_rule_files(s, dir, files, n).failure is None <==> s.failure is None && forall|i: int|
            0 <= i < n ==> (#[trigger] files[i]).entries is Ok,
    decreases n,
{
    if n > 0 {
        lemma_rule_files_failure(s, dir, files, n - 1);
    }
}

/// Loading fails exactly where a file of one of the directories cannot be read: a bad line
/// never makes it fail.
pub proof fn law_only_unreadable_files_fail(s: LoadView, dirs: Seq<Option<RulesDir>>, n: int)
    requires
        0 <= n <= dirs.len(),
    ensures
        after_dirs(s, dirs, n).failure is None <==> s.failure is None && forall|i: int|
            0 <= i < n && (#[trigger] dirs[i]) is Some ==> is_readable(dirs[i]->0),
    decreases n,
{
    if n > 0 {
        law_only_unreadable_files_fail(s, dirs, n - 1);
        let before = after_dirs(s, dirs, n - 1);
        match dirs[n - 1] {
            Some(dir) => {
                let types = in_path_order(dir.type_files@);
                law_files_load_in_path_order(dir.type_files@);
                law_files_load_in_path_order(dir.rule_files@);
                lemma_ordered_readable(dir);
                lemma_type_files_failure(before, dir.path@, types, types.len() as int);
                let with_types = after_type_files(before, dir.path@, types, types.len() as int);
                let rules = in_path_order(dir.rule_files@);
                lemma_rule_files_failure(with_types, dir.path@, rules, rules.len() as int);
            },
            None => {},
        }
    }
}

} // verus!
