//! Lines of rule files: which of them are entries, and which fields they may have.

use vstd::prelude::*;

use crate::laws::text::{is_blank, law_blank_means_nothing_left, law_trim_cuts_white_space_only};
use crate::rules::lines::{describes, is_entry, json_keys, unknown_among, FileKind, LineCheck};
use crate::text::{texts, trimmed, white_space};

verus! {

/// A line is an entry exactly where its first character that is no white space exists and is no
/// number sign.
pub proof fn law_entries_begin_with_anything_but_a_comment(line: Seq<char>)
    ensures
        is_entry(line) <==> exists|i: int|
            0 <= i < line.len() && !white_space(#[trigger] line[i]) && line[i] != '#' && is_blank(
                line.take(i),
            ),
{
    law_blank_means_nothing_left(line);
    law_trim_cuts_white_space_only(line);
    let (before, after) = choose|before: Seq<char>, after: Seq<char>|
        is_blank(before) && is_blank(after) && line == #[trigger] (before + trimmed(line) + after);
    let at = before.len() as int;
    if trimmed(line).len() > 0 {
        assert(line[at] == trimmed(line)[0]);
        assert(line.take(at) =~= before);
        assert forall|i: int|
            0 <= i < line.len() && !white_space(#[trigger] line[i]) && is_blank(
                line.take(i),
            ) implies i == at by {
            if i < at {
                assert(before[i] == line[i]);
            } else if i > at {
                assert(line.take(i)[at] == line[at]);
            }
        }
    }
}

/// The fields of a type are those that a rule has too, and `sched`; the fields of a rule are the
/// common ones and what it selects by. No field has another name.
pub proof fn law_fields_of_types_and_rules(name: Seq<char>)
    ensures
        FileKind::Types.has_field(name) && FileKind::Rules.has_field(name) <==> {
            ||| name == "type"@
            ||| name == "nice"@
            ||| name == "ioclass"@
            ||| name == "ionice"@
            ||| name == "oom_score_adj"@
            ||| name == "cgroup"@
            ||| name == "cgroup_weight"@
        },
        FileKind::Types.has_field(name) && !FileKind::Rules.has_field(name) <==> name == "sched"@,
        FileKind::Rules.has_field(name) && !FileKind::Types.has_field(name) <==> {
            ||| name == "name"@
            ||| name == "exe_pattern"@
            ||| name == "cmdline_contains"@
        },
{
    reveal_strlit("type");
    reveal_strlit("nice");
    reveal_strlit("ioclass");
    reveal_strlit("ionice");
    reveal_strlit("oom_score_adj");
    reveal_strlit("cgroup");
    reveal_strlit("cgroup_weight");
    reveal_strlit("sched");
    reveal_strlit("name");
    reveal_strlit("exe_pattern");
    reveal_strlit("cmdline_contains");
    assert("sched"@[0] == 's' && "name"@[1] == 'a');
    assert("nice"@[1] == 'i' && "type"@[0] == 't' && "ioclass"@[0] == 'i' && "ionice"@[0] == 'i');
    assert("oom_score_adj"@[0] == 'o' && "cgroup"@[1] == 'g' && "cgroup_weight"@[1] == 'g');
    assert("exe_pattern"@[0] == 'e' && "cmdline_contains"@[1] == 'm');
    assert("name"@[0] == 'n' && "cgroup"@[0] == 'c' && "cgroup_weight"@[0] == 'c');
}

proof fn lemma_filter_member(s: Seq<Seq<char>>, keep: spec_fn(Seq<char>) -> bool, x: Seq<char>)
    ensures
        s.filter(keep).contains(x) <==> s.contains(x) && keep(x),
{
    let kept = s.filter(keep);
    if kept.contains(x) {
        s.lemma_filter_contains_rev(keep, x);
        let i = choose|i: int| 0 <= i < kept.len() && kept[i] == x;
        s.lemma_filter_pred(keep, i);
    }
    if s.contains(x) && keep(x) {
        let i = choose|i: int| 0 <= i < s.len() && s[i] == x;
        s.lemma_filter_contains(keep, i);
    }
}

/// What is told of an object's unknown fields is exactly the keys that the file's kind does not
/// know.
pub proof fn law_unknown_fields_are_told(
    kind: FileKind,
    text: Seq<char>,
    check: LineCheck,
    key: Seq<char>,
)
    requires
        describes(kind, text, check),
    ensures
        check is Object <==> json_keys(text) is Ok && json_keys(text)->Ok_0 is Some,
        check is NotObject <==> json_keys(text) is Ok && json_keys(text)->Ok_0 is None,
        check is Malformed <==> json_keys(text) is Err,
        check matches LineCheck::Malformed(why) ==> why@ == json_keys(text)->Err_0,
        check matches LineCheck::Object { unknown } ==> (texts(unknown@).contains(key)
            <==> json_keys(text)->Ok_0->0.contains(key) && !kind.has_field(key)),
{
    if let LineCheck::Object { unknown } = check {
        let keys = json_keys(text)->Ok_0->0;
        let told = texts(unknown@);
        let foreign = unknown_among(kind, keys);
        told.to_multiset_ensures();
        foreign.to_multiset_ensures();
        assert(told.contains(key) <==> told.to_multiset().count(key) > 0);
        assert(foreign.contains(key) <==> foreign.to_multiset().count(key) > 0);
        lemma_filter_member(keys, |key: Seq<char>| !kind.has_field(key), key);
    }
}

} // verus!
