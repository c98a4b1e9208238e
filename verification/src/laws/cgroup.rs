//! Cgroup paths and moves: what a path stands for, and the steps that lead there.

use vstd::prelude::*;

use crate::applier::cgroup::{
    base_components, cgroup_components, components_up_to, entering, pieces_of, planned, started,
    written_weight, CgroupPathError, ControlFile, MoveStatus, MoveView, StepOutcome, StepView,
};
use crate::numbers::{decimal_of, law_decimal_reads_back};
use crate::text::lemma_find_char;

verus! {

/// A text without a separator is one piece; in front of a separator it is the first piece, and
/// the pieces behind the separator follow.
pub proof fn law_separators_part_the_pieces(piece: Seq<char>, rest: Seq<char>)
    requires
        !piece.contains('/'),
    ensures
        pieces_of(piece) == seq![piece],
        pieces_of(piece + seq!['/'] + rest) == seq![piece] + pieces_of(rest),
{
    let n = piece.len() as int;
    assert forall|k: int| 0 <= k < n implies piece[k] != '/' by {
        if piece[k] == '/' {
            assert(piece.contains('/'));
        }
    }
    lemma_find_char(piece, '/', n);
    let path = piece + seq!['/'] + rest;
    assert forall|k: int| 0 <= k < n implies path[k] != '/' by {
        assert(path[k] == piece[k]);
    }
    assert(path[n] == '/');
    lemma_find_char(path, '/', n);
    assert(path.take(n) =~= piece);
    assert(path.skip(n + 1) =~= rest);
}

proof fn lemma_pieces_push(path: Seq<char>, piece: Seq<char>)
    requires
        !piece.contains('/'),
    ensures
        pieces_of(path).len() > 0,
        pieces_of(path + seq!['/'] + piece) == pieces_of(path).push(piece),
        path.len() > 0 && path[0] != '/' ==> pieces_of(path)[0].len() > 0,
    decreases path.len(),
{
    law_separators_part_the_pieces(piece, Seq::empty());
    if path.contains('/') {
        let k = lemma_first_separator(path);
        let first = path.take(k);
        let rest = path.skip(k + 1);
        assert(!first.contains('/'));
        lemma_pieces_push(rest, piece);
        assert(path =~= first + seq!['/'] + rest);
        law_separators_part_the_pieces(first, rest);
        law_separators_part_the_pieces(first, rest + seq!['/'] + piece);
        assert(path + seq!['/'] + piece =~= first + seq!['/'] + (rest + seq!['/'] + piece));
        assert(seq![first] + pieces_of(rest).push(piece) =~= (seq![first] + pieces_of(rest)).push(
            piece,
        ));
    } else {
        law_separators_part_the_pieces(path, piece);
        assert(seq![path] + seq![piece] =~= seq![path].push(piece));
    }
}

proof fn lemma_first_separator(path: Seq<char>) -> (k: int)
    requires
        path.contains('/'),
    ensures
        0 <= k < path.len(),
        path[k] == '/',
        forall|i: int| 0 <= i < k ==> path[i] != '/',
    decreases path.len(),
{
    if path[0] == '/' {
        0
    } else {
        let rest = path.drop_first();
        let at = choose|at: int| 0 <= at < path.len() && path[at] == '/';
        assert(rest[at - 1] == '/');
        let k = lemma_first_separator(rest);
        assert forall|i: int| 0 <= i < k + 1 implies path[i] != '/' by {
            if i > 0 {
                assert(rest[i - 1] == path[i]);
            }
        }
        k + 1
    }
}

proof fn lemma_components_of_pushed(pieces: Seq<Seq<char>>, piece: Seq<char>, n: int)
    requires
        0 <= n <= pieces.len(),
    ensures
        components_up_to(pieces.push(piece), n) == components_up_to(pieces, n),
    decreases n,
{
    if n > 0 {
        lemma_components_of_pushed(pieces, piece, n - 1);
    }
}

/// The empty path and one from the root are refused as such. A path of one piece is that piece; it
/// may name neither the directory itself nor its parent, and hold no NUL.
pub proof fn law_single_piece_is_its_component(piece: Seq<char>, rest: Seq<char>)
    requires
        piece.len() > 0,
        !piece.contains('/'),
    ensures
        cgroup_components(Seq::empty()) == Err::<Seq<Seq<char>>, _>(CgroupPathError::Empty),
        cgroup_components(seq!['/'] + rest) == Err::<Seq<Seq<char>>, _>(CgroupPathError::Absolute),
        piece == seq!['.'] || piece == seq!['.', '.'] ==> cgroup_components(piece) == Err::<
            Seq<Seq<char>>,
            _,
        >(CgroupPathError::Unsafe),
        piece != seq!['.'] && piece != seq!['.', '.'] && piece.contains('\0') ==> cgroup_components(
            piece,
        ) == Err::<Seq<Seq<char>>, _>(CgroupPathError::ContainsNul),
        piece != seq!['.'] && piece != seq!['.', '.'] && !piece.contains('\0')
            ==> cgroup_components(piece) == Ok::<_, CgroupPathError>(seq![piece]),
{
    reveal_strlit(".");
    reveal_strlit("..");
    assert("."@ =~= seq!['.']);
    assert(".."@ =~= seq!['.', '.']);
    assert((seq!['/'] + rest)[0] == '/');
    assert(piece[0] != '/') by {
        if piece[0] == '/' {
            assert(piece.contains('/'));
        }
    }
    law_separators_part_the_pieces(piece, rest);
    reveal_with_fuel(components_up_to, 2);
    assert(Seq::<Seq<char>>::empty().push(piece) =~= seq![piece]);
}

/// One more piece behind a separator is one more component. An empty piece and the directory
/// itself add none; the parent and a piece with NUL are refused; and a path that is refused for
/// such a piece stays so.
pub proof fn law_further_piece_is_a_further_component(path: Seq<char>, piece: Seq<char>)
    requires
        path.len() > 0,
        path[0] != '/',
        !piece.contains('/'),
    ensures
        ({
            let longer = path + seq!['/'] + piece;
            &&& cgroup_components(path) is Err ==> cgroup_components(longer) == cgroup_components(
                path,
            )
            &&& cgroup_components(path) is Ok && (piece.len() == 0 || piece == seq!['.'])
                ==> cgroup_components(longer) == cgroup_components(path)
            &&& cgroup_components(path) is Ok && piece == seq!['.', '.'] ==> cgroup_components(
                longer,
            ) == Err::<Seq<Seq<char>>, _>(CgroupPathError::Unsafe)
            &&& cgroup_components(path) is Ok && piece != seq!['.'] && piece != seq!['.', '.']
                && piece.contains('\0') ==> cgroup_components(longer) == Err::<Seq<Seq<char>>, _>(
                CgroupPathError::ContainsNul,
            )
            &&& cgroup_components(path) is Ok && piece.len() > 0 && piece != seq!['.'] && piece
                != seq!['.', '.'] && !piece.contains('\0') ==> cgroup_components(longer) == Ok::<
                _,
                CgroupPathError,
            >(cgroup_components(path)->Ok_0 + seq![piece])
        }),
{
    reveal_strlit(".");
    reveal_strlit("..");
    assert("."@ =~= seq!['.']);
    assert(".."@ =~= seq!['.', '.']);
    let longer = path + seq!['/'] + piece;
    let pieces = pieces_of(path);
    let n = pieces.len() as int;
    lemma_pieces_push(path, piece);
    lemma_components_of_pushed(pieces, piece, n);
    assert(longer[0] == path[0]);
    assert(pieces.push(piece)[n] == piece);
    if cgroup_components(path) is Ok {
        let parts = cgroup_components(path)->Ok_0;
        assert(parts.push(piece) =~= parts + seq![piece]);
    }
}

/// The scope of a user is four directories deep, and the second and third bear the user's number.
pub proof fn law_scope_bears_the_user(uid: u32)
    ensures
        base_components(uid).len() == 4,
        base_components(uid)[0] == "user.slice"@,
        base_components(uid)[1] == "user-"@ + decimal_of(uid as nat) + ".slice"@,
        base_components(uid)[2] == "user@"@ + decimal_of(uid as nat) + ".service"@,
        base_components(uid)[3] == "arbiter.slice"@,
{
}

/// No two users share a scope.
pub proof fn law_scopes_are_apart(a: u32, b: u32)
    requires
        a != b,
    ensures
        base_components(a)[1] != base_components(b)[1],
        base_components(a)[2] != base_components(b)[2],
{
    lemma_framed("user-"@, a, b, ".slice"@);
    lemma_framed("user@"@, a, b, ".service"@);
}

proof fn lemma_framed(before: Seq<char>, a: u32, b: u32, after: Seq<char>)
    requires
        a != b,
    ensures
        before + decimal_of(a as nat) + after != before + decimal_of(b as nat) + after,
{
    let x = decimal_of(a as nat);
    let y = decimal_of(b as nat);
    let left = before + x + after;
    let right = before + y + after;
    law_decimal_reads_back(a as nat, u32::MAX as nat);
    law_decimal_reads_back(b as nat, u32::MAX as nat);
    assert(left.len() == before.len() + x.len() + after.len());
    assert(right.len() == before.len() + y.len() + after.len());
    if left == right {
        assert(x.len() == y.len());
        let from = before.len() as int;
        assert(left.subrange(from, from + x.len()) =~= x);
        assert(right.subrange(from, from + y.len()) =~= y);
    }
}

proof fn lemma_entering_steps(names: Seq<Seq<char>>, i: int)
    requires
        0 <= i < names.len(),
    ensures
        entering(names).len() == 2 * names.len(),
        entering(names)[2 * i] == StepView::MakeDir(names[i]),
        entering(names)[2 * i + 1] == StepView::EnterDir(names[i]),
    decreases names.len(),
{
    let shorter = names.drop_last();
    reveal_with_fuel(entering, 2);
    if i < names.len() - 1 {
        lemma_entering_steps(shorter, i);
    } else if shorter.len() > 0 {
        lemma_entering_steps(shorter, 0);
    }
}

/// A move opens the root, makes and enters each directory of the scope and of the path in turn,
/// writes the process into the last, and then the weights that are asked for.
pub proof fn law_move_goes_down_then_writes(
    uid: u32,
    pid: u32,
    parts: Seq<Seq<char>>,
    weight: Option<u64>,
    io: Option<u16>,
    i: int,
)
    requires
        0 <= i < 4 + parts.len(),
    ensures
        ({
            let names = base_components(uid) + parts;
            let steps = planned(uid, pid, parts, weight, io);
            let end = 1 + 2 * names.len() as int;
            let own = StepView::Write {
                file: ControlFile::Procs,
                contents: decimal_of(pid as nat) + seq!['\n'],
            };
            &&& steps[0] == StepView::OpenRoot
            &&& steps[1 + 2 * i] == StepView::MakeDir(names[i])
            &&& steps[2 + 2 * i] == StepView::EnterDir(names[i])
            &&& steps[end] == own
            &&& weight is None && io is None ==> steps.len() == end + 1
            &&& weight is Some ==> steps[end + 1] == (StepView::Write {
                file: ControlFile::CpuWeight,
                contents: decimal_of(
                    if weight->0 < 1 {
                        1
                    } else if weight->0 > 10_000 {
                        10_000
                    } else {
                        weight->0 as nat
                    },
                ) + seq!['\n'],
            })
            &&& weight is Some && io is None ==> steps.len() == end + 2
            &&& io is Some ==> steps.last() == (StepView::Write {
                file: ControlFile::IoWeight,
                contents: decimal_of(io->0 as nat) + seq!['\n'],
            })
            &&& io is Some && weight is None ==> steps.len() == end + 2
            &&& io is Some && weight is Some ==> steps.len() == end + 3
        }),
{
    let names = base_components(uid) + parts;
    let steps = planned(uid, pid, parts, weight, io);
    lemma_entering_steps(names, i);
    assert(steps[1 + 2 * i] == entering(names)[2 * i]);
    assert(steps[2 + 2 * i] == entering(names)[2 * i + 1]);
    assert(decimal_of(pid as nat).push('\n') =~= decimal_of(pid as nat) + seq!['\n']);
    if let Some(w) = weight {
        let value = written_weight(w) as nat;
        assert(decimal_of(value).push('\n') =~= decimal_of(value) + seq!['\n']);
    }
    if let Some(w) = io {
        assert(decimal_of(w as nat).push('\n') =~= decimal_of(w as nat) + seq!['\n']);
    }
}

/// A step goes on where it was done. Beyond that a directory may be there already, and a weight
/// file may be missing; nothing else is passed over.
pub proof fn law_only_harmless_outcomes_are_tolerated(step: StepView, outcome: StepOutcome)
    ensures
        step.tolerates(outcome) <==> {
            ||| outcome == StepOutcome::Done
            ||| step is MakeDir && outcome == StepOutcome::Exists
            ||| step matches StepView::Write { file, .. } && (file == ControlFile::CpuWeight || file
                == ControlFile::IoWeight) && outcome == StepOutcome::Missing
        },
{
}

/// The control files have the names that the kernel gives them.
pub proof fn law_control_files_have_their_names()
    ensures
        ControlFile::Procs.name_of() == "cgroup.procs"@,
        ControlFile::CpuWeight.name_of() == "cpu.weight"@,
        ControlFile::IoWeight.name_of() == "io.weight"@,
{
}

/// A move starts at its first step with nothing written.
pub proof fn law_move_starts_at_the_root(
    uid: u32,
    pid: u32,
    parts: Seq<Seq<char>>,
    weight: Option<u64>,
    io: Option<u16>,
)
    ensures
        ({
            let m = started(uid, pid, parts, weight, io);
            &&& m.steps == planned(uid, pid, parts, weight, io)
            &&& m.next == 0
            &&& m.io_weight == io
            &&& m.io_applied is None
            &&& !m.failed
            &&& m.status() == MoveStatus::Pending
        }),
{
}

/// A step that goes on leads to the next one and counts the weight exactly where it wrote it; any
/// other outcome fails the move where it stands. A move that is over stays as it is.
pub proof fn law_each_outcome_leads_on_or_fails(m: MoveView, outcome: StepOutcome)
    requires
        0 <= m.next,
    ensures
        m.failed || m.next >= m.steps.len() ==> m.recorded(outcome) == m,
        !m.failed && m.next < m.steps.len() && !m.steps[m.next].tolerates(outcome) ==> {
            &&& m.recorded(outcome).failed
            &&& m.recorded(outcome).next == m.next
            &&& m.recorded(outcome).steps == m.steps
            &&& m.recorded(outcome).status() == MoveStatus::Failed
        },
        !m.failed && m.next < m.steps.len() && m.steps[m.next].tolerates(outcome) ==> {
            &&& !m.recorded(outcome).failed
            &&& m.recorded(outcome).next == m.next + 1
            &&& m.recorded(outcome).steps == m.steps
            &&& m.recorded(outcome).io_weight == m.io_weight
            &&& m.recorded(outcome).io_applied == if m.steps[m.next] is Write
                && m.steps[m.next]->file == ControlFile::IoWeight && outcome == StepOutcome::Done {
                m.io_weight
            } else {
                m.io_applied
            }
        },
        !m.failed && m.next >= m.steps.len() ==> m.status() == MoveStatus::Moved(m.io_applied),
{
}

} // verus!
