//! Placement of processes in cgroups: which paths are accepted, and the steps of a move.

use vstd::prelude::*;

use crate::numbers::{decimal, decimal_of};
use crate::rules::validator::acceptable_cgroup;
use crate::text::{
    chars_of, find_char, has_substring, lemma_find_char, occurs_at, same_text, text_of, texts,
};

verus! {

/// The pieces of a path between its separators.
pub open spec fn pieces_of(path: Seq<char>) -> Seq<Seq<char>>
    decreases path.len(),
{
    let at = find_char(path, '/');
    if at < 0 || at >= path.len() {
        seq![path]
    } else {
        seq![path.take(at)] + pieces_of(path.skip(at + 1))
    }
}

/// The pieces of a path between its separators.
fn split_path(path: &str) -> (out: Vec<String>)
    ensures
        texts(out@) == pieces_of(path@),
{
    let v = chars_of(path);
    let mut out: Vec<String> = Vec::new();
    let mut from: usize = 0;
    assert(v@.skip(0) == v@);
    assert(texts(out@) + pieces_of(v@) =~= pieces_of(v@));
    loop
        invariant
            from <= v@.len(),
            v@ == path@,
            texts(out@) + pieces_of(v@.skip(from as int)) == pieces_of(v@),
        decreases v@.len() - from,
    {
        let ghost rest = v@.skip(from as int);
        let ghost before = out@;
        let mut end: usize = from;
        while end < v.len() && v[end] != '/'
            invariant
                from <= end <= v@.len(),
                forall|k: int| from <= k < end ==> v@[k] != '/',
            decreases v@.len() - end,
        {
            end += 1;
        }
        proof {
            lemma_find_char(rest, '/', end - from);
        }
        let piece = text_of(&v, from, end);
        let ghost text = piece@;
        out.push(piece);
        assert(texts(out@) =~= texts(before).push(text));
        if end == v.len() {
            assert(text =~= rest);
            assert(texts(out@) =~= texts(before) + seq![rest]);
            return out;
        }
        assert(rest.take(end - from) =~= text);
        assert(rest.skip(end - from + 1) =~= v@.skip(end + 1));
        from = end + 1;
        assert(texts(out@) + pieces_of(v@.skip(from as int)) =~= texts(before) + (seq![text]
            + pieces_of(v@.skip(from as int))));
    }
}

/// Why a cgroup path is refused.
#[derive(Clone, Copy, Debug, PartialEq, Eq, Structural)]
pub enum CgroupPathError {
    /// The path is empty.
    Empty,
    /// The path starts at the root.
    Absolute,
    /// The path refers to the current or the parent directory.
    Unsafe,
    /// A component contains NUL.
    ContainsNul,
}

/// Whether a piece adds no component: it is empty, or a dot after the first piece.
pub open spec fn is_passed_over(piece: Seq<char>, is_first: bool) -> bool {
    piece.len() == 0 || !is_first && piece == "."@
}

/// What is wrong with a piece, where something is.
pub open spec fn piece_error(piece: Seq<char>, is_first: bool) -> Option<CgroupPathError> {
    if is_passed_over(piece, is_first) {
        None
    } else if piece == "."@ || piece == ".."@ {
        Some(CgroupPathError::Unsafe)
    } else if piece.contains('\0') {
        Some(CgroupPathError::ContainsNul)
    } else {
        None
    }
}

/// The components of the first `n` pieces, or what is wrong with the first bad one.
pub open spec fn components_up_to(pieces: Seq<Seq<char>>, n: int) -> Result<
    Seq<Seq<char>>,
    CgroupPathError,
>
    decreases n,
{
    if n <= 0 {
        Ok(seq![])
    } else {
        match components_up_to(pieces, n - 1) {
            Err(e) => Err(e),
            Ok(parts) => match piece_error(pieces[n - 1], n == 1) {
                Some(e) => Err(e),
                None => if is_passed_over(pieces[n - 1], n == 1) {
                    Ok(parts)
                } else {
                    Ok(parts.push(pieces[n - 1]))
                },
            },
        }
    }
}

/// The components of a relative cgroup path, or why it is refused.
pub open spec fn cgroup_components(path: Seq<char>) -> Result<Seq<Seq<char>>, CgroupPathError> {
    if path.len() == 0 {
        Err(CgroupPathError::Empty)
    } else if path[0] == '/' {
        Err(CgroupPathError::Absolute)
    } else {
        components_up_to(pieces_of(path), pieces_of(path).len() as int)
    }
}

fn contains_nul(s: &str) -> (r: bool)
    ensures
        r == s@.contains('\0'),
{
    let v = chars_of(s);
    let mut i: usize = 0;
    while i < v.len()
        invariant
            i <= v@.len(),
            v@ == s@,
            forall|k: int| 0 <= k < i ==> v@[k] != '\0',
        decreases v@.len() - i,
    {
        if v[i] == '\0' {
            assert(s@[i as int] == '\0');
            return true;
        }
        i += 1;
    }
    false
}

/// The components of a relative cgroup path. Empty, absolute and escaping paths are refused.
pub fn validated_cgroup_components(cgroup: &str) -> (r: Result<Vec<String>, CgroupPathError>)
    ensures
        match r {
            Ok(parts) => cgroup_components(cgroup@) == Ok::<_, CgroupPathError>(texts(parts@)),
            Err(e) => cgroup_components(cgroup@) == Err::<Seq<Seq<char>>, _>(e),
        },
{
    if cgroup.is_empty() {
        return Err(CgroupPathError::Empty);
    }
    if cgroup.get_char(0) == '/' {
        return Err(CgroupPathError::Absolute);
    }
    let pieces = split_path(cgroup);
    let ghost all = pieces_of(cgroup@);
    let mut parts: Vec<String> = Vec::new();
    let mut i: usize = 0;
    assert(texts(parts@) =~= seq![]);
    while i < pieces.len()
        invariant
            i <= pieces@.len(),
            cgroup@.len() > 0,
            cgroup@[0] != '/',
            all == pieces_of(cgroup@),
            texts(pieces@) == all,
            components_up_to(all, i as int) == Ok::<_, CgroupPathError>(texts(parts@)),
        decreases pieces@.len() - i,
    {
        let piece = pieces[i].as_str();
        assert(piece@ == all[i as int]);
        let dot = same_text(piece, ".");
        let passed_over = piece.is_empty() || i > 0 && dot;
        if !passed_over {
            if dot || same_text(piece, "..") {
                proof {
                    lemma_first_error_stays(all, i + 1, all.len() as int);
                }
                return Err(CgroupPathError::Unsafe);
            }
            if contains_nul(piece) {
                proof {
                    lemma_first_error_stays(all, i + 1, all.len() as int);
                }
                return Err(CgroupPathError::ContainsNul);
            }
            let ghost before = parts@;
            parts.push(pieces[i].clone());
            assert(texts(parts@) =~= texts(before).push(all[i as int]));
        }
        i += 1;
    }
    Ok(parts)
}

proof fn lemma_first_error_stays(pieces: Seq<Seq<char>>, m: int, n: int)
    requires
        m <= n,
        components_up_to(pieces, m) is Err,
    ensures
        components_up_to(pieces, n) == components_up_to(pieces, m),
    decreases n,
{
    if m < n {
        lemma_first_error_stays(pieces, m, n - 1);
    }
}

/// Whether a name stands for one directory below the current one.
pub open spec fn is_safe_name(name: Seq<char>) -> bool {
    &&& name.len() > 0
    &&& name != "."@
    &&& name != ".."@
    &&& !name.contains('/')
    &&& !name.contains('\0')
}

proof fn lemma_find_char_is_first(s: Seq<char>, c: char)
    ensures
        0 <= find_char(s, c) <= s.len(),
        forall|k: int| 0 <= k < find_char(s, c) ==> s[k] != c,
        find_char(s, c) < s.len() ==> s[find_char(s, c)] == c,
    decreases s.len(),
{
    if s.len() > 0 && s[0] != c {
        let rest = s.drop_first();
        lemma_find_char_is_first(rest, c);
        assert forall|k: int| 0 <= k < find_char(s, c) implies s[k] != c by {
            if k > 0 {
                assert(rest[k - 1] == s[k]);
            }
        }
    }
}

/// Each piece is a stretch of the path without a separator.
proof fn lemma_piece_in_path(path: Seq<char>, k: int)
    requires
        0 <= k < pieces_of(path).len(),
    ensures
        !pieces_of(path)[k].contains('/'),
        has_substring(path, pieces_of(path)[k]),
        path.len() > 0 && path[0] != '/' ==> pieces_of(path)[0].len() > 0,
    decreases path.len(),
{
    lemma_find_char_is_first(path, '/');
    let at = find_char(path, '/');
    let pieces = pieces_of(path);
    if at >= path.len() {
        assert(occurs_at(path, pieces[k], 0)) by {
            assert(path.subrange(0, path.len() as int) =~= path);
        }
    } else {
        let rest = path.skip(at + 1);
        if k == 0 {
            assert(occurs_at(path, pieces[k], 0)) by {
                assert(path.subrange(0, at) =~= path.take(at));
            }
        } else {
            lemma_piece_in_path(rest, k - 1);
            let piece = pieces_of(rest)[k - 1];
            assert(pieces[k] == piece);
            let from = choose|from: int| occurs_at(rest, piece, from);
            assert(occurs_at(path, piece, from + at + 1)) by {
                assert(path.subrange(from + at + 1, from + at + 1 + piece.len()) =~= rest.subrange(
                    from,
                    from + piece.len(),
                ));
            }
        }
    }
}

/// No escape: every component of an accepted path is the name of a directory below the one
/// before it, and there is at least one.
pub proof fn law_accepted_components_are_safe(path: Seq<char>)
    requires
        cgroup_components(path) is Ok,
    ensures
        cgroup_components(path)->Ok_0.len() > 0,
        forall|i: int|
            0 <= i < cgroup_components(path)->Ok_0.len() ==> is_safe_name(
                #[trigger] cgroup_components(path)->Ok_0[i],
            ),
{
    let pieces = pieces_of(path);
    lemma_piece_in_path(path, 0);
    lemma_components_are_safe(path, pieces.len() as int);
}

proof fn lemma_components_are_safe(path: Seq<char>, n: int)
    requires
        0 <= n <= pieces_of(path).len(),
        components_up_to(pieces_of(path), n) is Ok,
        pieces_of(path)[0].len() > 0,
    ensures
        n > 0 ==> components_up_to(pieces_of(path), n)->Ok_0.len() > 0,
        forall|i: int|
            0 <= i < components_up_to(pieces_of(path), n)->Ok_0.len() ==> is_safe_name(
                #[trigger] components_up_to(pieces_of(path), n)->Ok_0[i],
            ),
    decreases n,
{
    if n > 0 {
        lemma_components_are_safe(path, n - 1);
        lemma_piece_in_path(path, n - 1);
    }
}

/// A path that validation accepts can be entered, unless it contains NUL or its first component
/// is the current directory.
pub proof fn law_validated_paths_are_accepted(path: Seq<char>)
    requires
        acceptable_cgroup(path),
        !path.contains('\0'),
        pieces_of(path)[0] != "."@,
    ensures
        cgroup_components(path) is Ok,
{
    lemma_validated_components(path, pieces_of(path).len() as int);
}

proof fn lemma_validated_components(path: Seq<char>, n: int)
    requires
        0 <= n <= pieces_of(path).len(),
        acceptable_cgroup(path),
        !path.contains('\0'),
        pieces_of(path)[0] != "."@,
    ensures
        components_up_to(pieces_of(path), n) is Ok,
    decreases n,
{
    if n > 0 {
        lemma_validated_components(path, n - 1);
        lemma_piece_in_path(path, n - 1);
        let piece = pieces_of(path)[n - 1];
        if piece.contains('\0') {
            let k = choose|k: int| 0 <= k < piece.len() && piece[k] == '\0';
            let from = choose|from: int| occurs_at(path, piece, from);
            assert(path.subrange(from, from + piece.len())[k] == path[from + k]);
        }
    }
}

/// The components of the scope that a user's processes are placed in.
pub open spec fn base_components(uid: u32) -> Seq<Seq<char>> {
    seq![
        "user.slice"@,
        "user-"@ + decimal_of(uid as nat) + ".slice"@,
        "user@"@ + decimal_of(uid as nat) + ".service"@,
        "arbiter.slice"@,
    ]
}

/// The components of the scope that a user's processes are placed in.
pub fn cgroup_base_components_for_uid(uid: u32) -> (r: Vec<String>)
    ensures
        texts(r@) == base_components(uid),
{
    let number = decimal(uid as u64);
    let mut slice = "user-".to_owned();
    slice.append(number.as_str());
    slice.append(".slice");
    let mut service = "user@".to_owned();
    service.append(number.as_str());
    service.append(".service");
    let mut r: Vec<String> = Vec::new();
    r.push("user.slice".to_owned());
    r.push(slice);
    r.push(service);
    r.push("arbiter.slice".to_owned());
    assert(texts(r@) =~= base_components(uid));
    r
}

/// The files of a cgroup directory that are written.
#[derive(Clone, Copy, Debug, PartialEq, Eq, Structural)]
pub enum ControlFile {
    Procs,
    CpuWeight,
    IoWeight,
}

impl ControlFile {
    /// The file's name.
    pub open spec fn name_of(self) -> Seq<char> {
        match self {
            ControlFile::Procs => "cgroup.procs"@,
            ControlFile::CpuWeight => "cpu.weight"@,
            ControlFile::IoWeight => "io.weight"@,
        }
    }

    /// The file's name.
    pub fn name(self) -> (s: String)
        ensures
            s@ == self.name_of(),
    {
        match self {
            ControlFile::Procs => "cgroup.procs".to_owned(),
            ControlFile::CpuWeight => "cpu.weight".to_owned(),
            ControlFile::IoWeight => "io.weight".to_owned(),
        }
    }
}

/// One step of a move. Each works on the directory that the step before it has left open.
#[derive(Debug)]
pub enum CgroupStep {
    /// Open the root of the cgroup file system.
    OpenRoot,
    /// Make a directory in the open one.
    MakeDir(String),
    /// Open a directory in the open one, without following a link.
    EnterDir(String),
    /// Write a file in the open directory.
    Write { file: ControlFile, contents: String },
}

/// What a [`CgroupStep`] does.
#[verifier::ext_equal]
pub enum StepView {
    OpenRoot,
    MakeDir(Seq<char>),
    EnterDir(Seq<char>),
    Write { file: ControlFile, contents: Seq<char> },
}

impl View for CgroupStep {
    type V = StepView;

    open spec fn view(&self) -> StepView {
        match self {
            CgroupStep::OpenRoot => StepView::OpenRoot,
            CgroupStep::MakeDir(name) => StepView::MakeDir(name@),
            CgroupStep::EnterDir(name) => StepView::EnterDir(name@),
            CgroupStep::Write { file, contents } => StepView::Write {
                file: *file,
                contents: contents@,
            },
        }
    }
}

/// What each step of a sequence does.
pub open spec fn step_views(steps: Seq<CgroupStep>) -> Seq<StepView> {
    steps.map_values(|s: CgroupStep| s@)
}

/// How a step went.
#[derive(Clone, Copy, Debug, PartialEq, Eq, Structural)]
pub enum StepOutcome {
    Done,
    /// The directory is already there.
    Exists,
    /// The file is not there.
    Missing,
    Failed,
}

impl StepView {
    /// Whether the move goes on after the step went like this: a directory that is already
    /// there is as good as made, and a kernel without a weight file is left without the weight.
    pub open spec fn tolerates(self, outcome: StepOutcome) -> bool {
        match outcome {
            StepOutcome::Done => true,
            StepOutcome::Exists => self is MakeDir,
            StepOutcome::Missing => self matches StepView::Write { file, .. } && file
                != ControlFile::Procs,
            StepOutcome::Failed => false,
        }
    }
}

impl CgroupStep {
    /// Whether the move goes on after the step went like this.
    pub fn tolerates(&self, outcome: StepOutcome) -> (r: bool)
        ensures
            r == self@.tolerates(outcome),
    {
        match outcome {
            StepOutcome::Done => true,
            StepOutcome::Exists => matches!(self, CgroupStep::MakeDir(_)),
            StepOutcome::Missing => match self {
                CgroupStep::Write { file, .. } => !matches!(*file, ControlFile::Procs),
                _ => false,
            },
            StepOutcome::Failed => false,
        }
    }
}

/// A number and the end of the line.
pub open spec fn number_line(n: nat) -> Seq<char> {
    decimal_of(n).push('\n')
}

fn line_with(n: u64) -> (s: String)
    ensures
        s@ == number_line(n as nat),
{
    let mut s = decimal(n);
    s.push('\n');
    s
}

/// The weight that is written for a requested one.
pub open spec fn written_weight(requested: u64) -> u64 {
    if requested < 1 {
        1
    } else if requested > 10_000 {
        10_000
    } else {
        requested
    }
}

/// The steps that make and enter each directory in turn.
pub open spec fn entering(names: Seq<Seq<char>>) -> Seq<StepView>
    decreases names.len(),
{
    if names.len() == 0 {
        seq![]
    } else {
        entering(names.drop_last()).push(StepView::MakeDir(names.last())).push(
            StepView::EnterDir(names.last()),
        )
    }
}

/// The step that writes a number to a file, where there is a number.
pub open spec fn writing(file: ControlFile, value: Option<nat>) -> Seq<StepView> {
    match value {
        Some(n) => seq![StepView::Write { file, contents: number_line(n) }],
        None => seq![],
    }
}

/// The steps of a move: enter the directory below the user's scope, making what is not there,
/// then place the process, then set the weights.
pub open spec fn planned(
    uid: u32,
    pid: u32,
    parts: Seq<Seq<char>>,
    weight: Option<u64>,
    io_weight: Option<u16>,
) -> Seq<StepView> {
    seq![StepView::OpenRoot] + entering(base_components(uid) + parts) + writing(
        ControlFile::Procs,
        Some(pid as nat),
    ) + writing(
        ControlFile::CpuWeight,
        match weight {
            Some(w) => Some(written_weight(w) as nat),
            None => None,
        },
    ) + writing(
        ControlFile::IoWeight,
        match io_weight {
            Some(w) => Some(w as nat),
            None => None,
        },
    )
}

fn push_entering(steps: &mut Vec<CgroupStep>, names: &Vec<String>)
    ensures
        step_views(final(steps)@) == step_views(old(steps)@) + entering(texts(names@)),
{
    let ghost all = texts(names@);
    let mut i: usize = 0;
    assert(all.take(0) =~= seq![]);
    assert(step_views(steps@) =~= step_views(old(steps)@) + entering(all.take(0)));
    while i < names.len()
        invariant
            i <= names@.len(),
            all == texts(names@),
            step_views(steps@) == step_views(old(steps)@) + entering(all.take(i as int)),
        decreases names@.len() - i,
    {
        let ghost before = steps@;
        steps.push(CgroupStep::MakeDir(names[i].clone()));
        steps.push(CgroupStep::EnterDir(names[i].clone()));
        proof {
            let name = all[i as int];
            assert(all.take(i + 1).drop_last() =~= all.take(i as int));
            assert(all.take(i + 1).last() == name);
            assert(step_views(steps@) =~= step_views(before).push(StepView::MakeDir(name)).push(
                StepView::EnterDir(name),
            ));
            assert(step_views(steps@) =~= step_views(old(steps)@) + entering(all.take(i + 1)));
        }
        i += 1;
    }
    assert(all.take(i as int) =~= all);
}

fn push_write(steps: &mut Vec<CgroupStep>, file: ControlFile, n: u64)
    ensures
        step_views(final(steps)@) == step_views(old(steps)@) + writing(file, Some(n as nat)),
{
    let ghost before = steps@;
    steps.push(CgroupStep::Write { file, contents: line_with(n) });
    assert(step_views(steps@) =~= step_views(before) + writing(file, Some(n as nat)));
}

/// A move of a process to a cgroup, as far as it has come.
pub struct CgroupMove {
    steps: Vec<CgroupStep>,
    next: usize,
    io_weight: Option<u16>,
    io_applied: Option<u16>,
    failed: bool,
}

/// What a [`CgroupMove`] holds: its steps, how many of them went through, the IO weight it is to
/// set, the one that was set, and whether a step failed.
#[verifier::ext_equal]
pub struct MoveView {
    pub steps: Seq<StepView>,
    pub next: int,
    pub io_weight: Option<u16>,
    pub io_applied: Option<u16>,
    pub failed: bool,
}

impl MoveView {
    /// Whether there is nothing left to do.
    pub open spec fn is_over(self) -> bool {
        self.failed || self.next >= self.steps.len()
    }

    /// The move after its current step went like this.
    pub open spec fn recorded(self, outcome: StepOutcome) -> MoveView {
        if self.is_over() {
            self
        } else if self.steps[self.next].tolerates(outcome) {
            MoveView {
                next: self.next + 1,
                io_applied: if outcome == StepOutcome::Done && (self.steps[self.next] matches
                    StepView::Write { file, .. } && file == ControlFile::IoWeight) {
                    self.io_weight
                } else {
                    self.io_applied
                },
                ..self
            }
        } else {
            MoveView { failed: true, ..self }
        }
    }
}

/// A move before its first step.
pub open spec fn started(
    uid: u32,
    pid: u32,
    parts: Seq<Seq<char>>,
    weight: Option<u64>,
    io_weight: Option<u16>,
) -> MoveView {
    MoveView {
        steps: planned(uid, pid, parts, weight, io_weight),
        next: 0,
        io_weight,
        io_applied: None,
        failed: false,
    }
}

/// How a move stands.
#[derive(Clone, Copy, Debug, PartialEq, Eq, Structural)]
pub enum MoveStatus {
    /// There are steps left.
    Pending,
    /// The process was placed, and this IO weight was set.
    Moved(Option<u16>),
    /// A step failed.
    Failed,
}

impl MoveView {
    /// How the move stands.
    pub open spec fn status(self) -> MoveStatus {
        if self.failed {
            MoveStatus::Failed
        } else if self.next >= self.steps.len() {
            MoveStatus::Moved(self.io_applied)
        } else {
            MoveStatus::Pending
        }
    }
}

impl View for CgroupMove {
    type V = MoveView;

    closed spec fn view(&self) -> MoveView {
        MoveView {
            steps: step_views(self.steps@),
            next: self.next as int,
            io_weight: self.io_weight,
            io_applied: self.io_applied,
            failed: self.failed,
        }
    }
}

impl CgroupMove {
    /// Plan the move of `pid` to a cgroup below the scope of user `uid`.
    pub fn new(
        uid: u32,
        pid: u32,
        cgroup: &str,
        weight: Option<u64>,
        io_weight: Option<u16>,
    ) -> (r: Result<CgroupMove, CgroupPathError>)
        ensures
            match r {
                Ok(m) => cgroup_components(cgroup@) is Ok && m@ == started(
                    uid,
                    pid,
                    cgroup_components(cgroup@)->Ok_0,
                    weight,
                    io_weight,
                ),
                Err(e) => cgroup_components(cgroup@) == Err::<Seq<Seq<char>>, _>(e),
            },
    {
        let mut parts = match validated_cgroup_components(cgroup) {
            Ok(parts) => parts,
            Err(e) => return Err(e),
        };
        let ghost own = texts(parts@);
        let mut names = cgroup_base_components_for_uid(uid);
        let ghost base = names@;
        let ghost tail = parts@;
        names.append(&mut parts);
        assert(texts(names@) =~= base_components(uid) + own);
        let mut steps: Vec<CgroupStep> = Vec::new();
        steps.push(CgroupStep::OpenRoot);
        assert(step_views(steps@) =~= seq![StepView::OpenRoot]);
        push_entering(&mut steps, &names);
        push_write(&mut steps, ControlFile::Procs, pid as u64);
        let ghost placed = step_views(steps@);
        if let Some(w) = weight {
            let written: u64 = if w < 1 {
                1
            } else if w > 10_000 {
                10_000
            } else {
                w
            };
            push_write(&mut steps, ControlFile::CpuWeight, written);
        } else {
            assert(placed + seq![] =~= placed);
        }
        let ghost weighted = step_views(steps@);
        if let Some(w) = io_weight {
            push_write(&mut steps, ControlFile::IoWeight, w as u64);
        } else {
            assert(weighted + seq![] =~= weighted);
        }
        assert(step_views(steps@) =~= planned(uid, pid, own, weight, io_weight));
        Ok(CgroupMove { steps, next: 0, io_weight, io_applied: None, failed: false })
    }

    /// The step to do next.
    pub fn current(&self) -> (r: Option<&CgroupStep>)
        ensures
            match r {
                Some(step) => !self@.is_over() && step@ == self@.steps[self@.next],
                None => self@.is_over(),
            },
    {
        if self.failed || self.next >= self.steps.len() {
            None
        } else {
            Some(&self.steps[self.next])
        }
    }

    /// Record how the current step went.
    pub fn record(&mut self, outcome: StepOutcome)
        ensures
            final(self)@ == old(self)@.recorded(outcome),
    {
        if self.failed || self.next >= self.steps.len() {
            return ;
        }
        let step = &self.steps[self.next];
        if step.tolerates(outcome) {
            if let CgroupStep::Write { file: ControlFile::IoWeight, .. } = step {
                if matches!(outcome, StepOutcome::Done) {
                    self.io_applied = self.io_weight;
                }
            }
            self.next = self.next + 1;
        } else {
            self.failed = true;
        }
    }

    /// How the move stands.
    pub fn status(&self) -> (r: MoveStatus)
        ensures
            r == self@.status(),
    {
        if self.failed {
            MoveStatus::Failed
        } else if self.next >= self.steps.len() {
            MoveStatus::Moved(self.io_applied)
        } else {
            MoveStatus::Pending
        }
    }
}

proof fn lemma_decimal_is_digits(n: nat)
    ensures
        decimal_of(n).len() > 0,
        forall|i: int| 0 <= i < decimal_of(n).len() ==> '0' <= #[trigger] decimal_of(n)[i] <= '9',
    decreases n,
{
    if n >= 10 {
        lemma_decimal_is_digits(n / 10);
    }
}

proof fn lemma_long_name_is_safe(name: Seq<char>)
    requires
        name.len() > 2,
        forall|k: int| 0 <= k < name.len() ==> #[trigger] name[k] != '/' && name[k] != '\0',
    ensures
        is_safe_name(name),
{
    reveal_strlit(".");
    reveal_strlit("..");
    assert("."@.len() == 1 && ".."@.len() == 2);
}

proof fn lemma_base_is_safe(uid: u32)
    ensures
        forall|i: int| 0 <= i < 4 ==> is_safe_name(#[trigger] base_components(uid)[i]),
{
    lemma_decimal_is_digits(uid as nat);
    reveal_strlit("user.slice");
    reveal_strlit("user-");
    reveal_strlit(".slice");
    reveal_strlit("user@");
    reveal_strlit(".service");
    reveal_strlit("arbiter.slice");
    lemma_long_name_is_safe("user.slice"@);
    lemma_long_name_is_safe("arbiter.slice"@);
    let digits = decimal_of(uid as nat);
    let slice = "user-"@ + digits + ".slice"@;
    assert forall|k: int| 0 <= k < slice.len() implies slice[k] != '/' && slice[k] != '\0' by {
        if 5 <= k < 5 + digits.len() {
            assert(slice[k] == digits[k - 5]);
        }
    }
    lemma_long_name_is_safe(slice);
    let service = "user@"@ + digits + ".service"@;
    assert forall|k: int| 0 <= k < service.len() implies service[k] != '/' && service[k]
        != '\0' by {
        if 5 <= k < 5 + digits.len() {
            assert(service[k] == digits[k - 5]);
        }
    }
    lemma_long_name_is_safe(service);
}

/// Entering directories never writes, and uses the given names only.
proof fn lemma_entering(names: Seq<Seq<char>>)
    ensures
        entering(names).len() == 2 * names.len(),
        forall|i: int|
            0 <= i < entering(names).len() ==> #[trigger] entering(names)[i] == (if i % 2 == 0 {
                StepView::MakeDir(names[i / 2])
            } else {
                StepView::EnterDir(names[i / 2])
            }),
    decreases names.len(),
{
    if names.len() > 0 {
        lemma_entering(names.drop_last());
    }
}

/// The directory that a step makes or enters.
pub open spec fn step_name(step: StepView) -> Option<Seq<char>> {
    match step {
        StepView::MakeDir(name) => Some(name),
        StepView::EnterDir(name) => Some(name),
        _ => None,
    }
}

/// A move stays inside the user's scope: it enters that scope first, and from there on it only
/// goes down, by names that lead to a directory below the open one.
pub proof fn law_move_is_contained(
    uid: u32,
    pid: u32,
    cgroup: Seq<char>,
    weight: Option<u64>,
    io_weight: Option<u16>,
)
    requires
        cgroup_components(cgroup) is Ok,
    ensures
        ({
            let steps = planned(uid, pid, cgroup_components(cgroup)->Ok_0, weight, io_weight);
            &&& (seq![StepView::OpenRoot] + entering(base_components(uid))).is_prefix_of(steps)
            &&& forall|i: int|
                0 <= i < steps.len() ==> (step_name(#[trigger] steps[i]) matches Some(name)
                    ==> is_safe_name(name))
        }),
{
    let parts = cgroup_components(cgroup)->Ok_0;
    let base = base_components(uid);
    let names = base + parts;
    let steps = planned(uid, pid, parts, weight, io_weight);
    law_accepted_components_are_safe(cgroup);
    lemma_base_is_safe(uid);
    lemma_entering(base);
    lemma_entering(names);
    assert forall|i: int| 0 <= i < names.len() implies is_safe_name(#[trigger] names[i]) by {
        if i >= 4 {
            assert(names[i] == parts[i - 4]);
        }
    }
    let first = seq![StepView::OpenRoot] + entering(base);
    assert(steps.subrange(0, first.len() as int) =~= first);
    let n = names.len() as int;
    assert forall|i: int| 0 <= i < steps.len() implies (step_name(#[trigger] steps[i]) matches Some(
        name,
    ) ==> is_safe_name(name)) by {
        if 1 <= i <= 2 * n {
            assert(steps[i] == entering(names)[i - 1]);
            assert(is_safe_name(names[(i - 1) / 2]));
        } else if i == 0 {
            assert(steps[i] == StepView::OpenRoot);
        } else {
            assert(steps[i] is Write);
        }
    }
}

/// The weight that is written lies within the bounds of cgroup weights, and a weight within
/// them is written as it is.
pub proof fn law_written_weight_in_bounds(requested: u64)
    ensures
        1 <= written_weight(requested) <= 10_000,
        1 <= requested <= 10_000 ==> written_weight(requested) == requested,
{
}

/// A move after the outcomes of its first `n` steps.
pub open spec fn after_outcomes(m: MoveView, outcomes: Seq<StepOutcome>, n: int) -> MoveView
    decreases n,
{
    if n <= 0 {
        m
    } else {
        after_outcomes(m, outcomes, n - 1).recorded(outcomes[n - 1])
    }
}

/// Where in a plan the IO weight is written.
proof fn lemma_io_weight_comes_last(
    uid: u32,
    pid: u32,
    parts: Seq<Seq<char>>,
    weight: Option<u64>,
    io_weight: Option<u16>,
)
    ensures
        ({
            let steps = planned(uid, pid, parts, weight, io_weight);
            forall|i: int|
                0 <= i < steps.len() ==> ((#[trigger] steps[i] matches StepView::Write { file, .. }
                    && file == ControlFile::IoWeight) <==> io_weight is Some && i == steps.len() - 1)
        }),
{
    let names = base_components(uid) + parts;
    let steps = planned(uid, pid, parts, weight, io_weight);
    lemma_entering(names);
    let n = names.len() as int;
    assert forall|i: int| 0 <= i < steps.len() implies ((#[trigger] steps[i] matches
        StepView::Write { file, .. } && file == ControlFile::IoWeight) <==> io_weight is Some && i
        == steps.len() - 1) by {
        if 1 <= i <= 2 * n {
            assert(steps[i] == entering(names)[i - 1]);
        } else if i > 2 * n + 1 && weight is Some {
            assert(steps[2 * n + 2] == StepView::Write {
                file: ControlFile::CpuWeight,
                contents: number_line(written_weight(weight->0) as nat),
            });
        } else if i == 2 * n + 1 {
            assert(steps[i] == StepView::Write {
                file: ControlFile::Procs,
                contents: number_line(pid as nat),
            });
        }
    }
}

proof fn lemma_tolerated_steps(
    uid: u32,
    pid: u32,
    parts: Seq<Seq<char>>,
    weight: Option<u64>,
    io_weight: Option<u16>,
    outcomes: Seq<StepOutcome>,
    n: int,
)
    requires
        0 <= n <= outcomes.len() == planned(uid, pid, parts, weight, io_weight).len(),
        forall|i: int|
            0 <= i < n ==> planned(uid, pid, parts, weight, io_weight)[i].tolerates(
                #[trigger] outcomes[i],
            ),
    ensures
        after_outcomes(started(uid, pid, parts, weight, io_weight), outcomes, n) == (MoveView {
            next: n,
            io_applied: if io_weight is Some && n == outcomes.len() && outcomes[n - 1]
                == StepOutcome::Done {
                io_weight
            } else {
                None
            },
            ..started(uid, pid, parts, weight, io_weight)
        }),
    decreases n,
{
    if n > 0 {
        lemma_tolerated_steps(uid, pid, parts, weight, io_weight, outcomes, n - 1);
        lemma_io_weight_comes_last(uid, pid, parts, weight, io_weight);
        assert(planned(uid, pid, parts, weight, io_weight)[n - 1].tolerates(outcomes[n - 1]));
    }
}

/// A move whose steps all go through, or fail only in ways it tolerates, places the process; the
/// IO weight counts as set exactly where its file was written.
pub proof fn law_tolerated_move_succeeds(
    uid: u32,
    pid: u32,
    parts: Seq<Seq<char>>,
    weight: Option<u64>,
    io_weight: Option<u16>,
    outcomes: Seq<StepOutcome>,
)
    requires
        outcomes.len() == planned(uid, pid, parts, weight, io_weight).len(),
        forall|i: int|
            0 <= i < outcomes.len() ==> planned(uid, pid, parts, weight, io_weight)[i].tolerates(
                #[trigger] outcomes[i],
            ),
    ensures
        after_outcomes(
            started(uid, pid, parts, weight, io_weight),
            outcomes,
            outcomes.len() as int,
        ).status() == MoveStatus::Moved(
            if outcomes.last() == StepOutcome::Done {
                io_weight
            } else {
                None
            },
        ),
{
    lemma_tolerated_steps(
        uid,
        pid,
        parts,
        weight,
        io_weight,
        outcomes,
        outcomes.len() as int,
    );
}

/// The first step that fails in a way the move does not tolerate ends it: nothing after it is
/// done.
pub proof fn law_move_stops_at_first_failure(
    uid: u32,
    pid: u32,
    parts: Seq<Seq<char>>,
    weight: Option<u64>,
    io_weight: Option<u16>,
    outcomes: Seq<StepOutcome>,
    k: int,
    n: int,
)
    requires
        0 <= k < n <= outcomes.len() == planned(uid, pid, parts, weight, io_weight).len(),
        forall|i: int|
            0 <= i < k ==> planned(uid, pid, parts, weight, io_weight)[i].tolerates(
                #[trigger] outcomes[i],
            ),
        !planned(uid, pid, parts, weight, io_weight)[k].tolerates(outcomes[k]),
    ensures
        after_outcomes(started(uid, pid, parts, weight, io_weight), outcomes, n).status()
            == MoveStatus::Failed,
        after_outcomes(started(uid, pid, parts, weight, io_weight), outcomes, n).next == k,
    decreases n,
{
    if n == k + 1 {
        lemma_tolerated_steps(uid, pid, parts, weight, io_weight, outcomes, k);
    } else {
        law_move_stops_at_first_failure(
            uid,
            pid,
            parts,
            weight,
            io_weight,
            outcomes,
            k,
            n - 1,
        );
    }
}

/// A move never reports another IO weight than the requested one: however its steps go, it
/// reports that one or none.
pub proof fn law_move_reports_requested_weight(
    uid: u32,
    pid: u32,
    parts: Seq<Seq<char>>,
    weight: Option<u64>,
    io_weight: Option<u16>,
    outcomes: Seq<StepOutcome>,
    n: int,
)
    requires
        0 <= n <= outcomes.len(),
    ensures
        ({
            let end = after_outcomes(started(uid, pid, parts, weight, io_weight), outcomes, n);
            &&& end.io_weight == io_weight
            &&& end.io_applied is None || end.io_applied == io_weight
            &&& end.status() matches MoveStatus::Moved(set) ==> set is None || set == io_weight
        }),
    decreases n,
{
    if n > 0 {
        law_move_reports_requested_weight(
            uid,
            pid,
            parts,
            weight,
            io_weight,
            outcomes,
            n - 1,
        );
    }
}

} // verus!
