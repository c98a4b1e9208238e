//! Rule files as text: which lines are entries, and which of them are JSON objects.

use vstd::prelude::*;

use crate::order::TextOrder;
use crate::text::{lines, lines_of, same_text, texts, trim, trimmed};

verus! {

/// The two kinds of rule files.
#[derive(Clone, Copy, Debug, PartialEq, Eq, Structural)]
pub enum FileKind {
    /// A `.types` file.
    Types,
    /// A `.rules` file.
    Rules,
}

/// Whether entries of type files have a field of this name.
pub open spec fn is_type_field(name: Seq<char>) -> bool {
    ||| name == "type"@
    ||| name == "nice"@
    ||| name == "ioclass"@
    ||| name == "ionice"@
    ||| name == "oom_score_adj"@
    ||| name == "cgroup"@
    ||| name == "cgroup_weight"@
    ||| name == "sched"@
}

/// Whether entries of rule files have a field of this name.
pub open spec fn is_rule_field(name: Seq<char>) -> bool {
    ||| name == "name"@
    ||| name == "type"@
    ||| name == "nice"@
    ||| name == "ioclass"@
    ||| name == "ionice"@
    ||| name == "oom_score_adj"@
    ||| name == "cgroup"@
    ||| name == "cgroup_weight"@
    ||| name == "exe_pattern"@
    ||| name == "cmdline_contains"@
}

impl FileKind {
    /// Whether entries of this kind of file have a field of this name.
    pub open spec fn has_field(self, name: Seq<char>) -> bool {
        match self {
            FileKind::Types => is_type_field(name),
            FileKind::Rules => is_rule_field(name),
        }
    }

    /// Whether entries of this kind of file have a field of this name.
    pub fn knows_field(self, name: &str) -> (r: bool)
        ensures
            r == self.has_field(name@),
    {
        let shared = same_text(name, "type") || same_text(name, "nice") || same_text(
            name,
            "ioclass",
        ) || same_text(name, "ionice") || same_text(name, "oom_score_adj") || same_text(
            name,
            "cgroup",
        ) || same_text(name, "cgroup_weight");
        match self {
            FileKind::Types => shared || same_text(name, "sched"),
            FileKind::Rules => shared || same_text(name, "name") || same_text(name, "exe_pattern")
                || same_text(name, "cmdline_contains"),
        }
    }
}

/// Whether a line is an entry: it is neither blank nor a comment.
pub open spec fn is_entry(line: Seq<char>) -> bool {
    trimmed(line).len() > 0 && trimmed(line)[0] != '#'
}

/// A line of a rule file that is neither blank nor a comment.
#[derive(Debug)]
pub struct EntryLine {
    /// Its number, counted from one.
    pub number: usize,
    /// Its text, without the white space around it.
    pub text: String,
}

impl View for EntryLine {
    type V = (int, Seq<char>);

    open spec fn view(&self) -> (int, Seq<char>) {
        (self.number as int, self.text@)
    }
}

/// What each line of a sequence holds.
pub open spec fn entry_views(entries: Seq<EntryLine>) -> Seq<(int, Seq<char>)> {
    entries.map_values(|e: EntryLine| e@)
}

/// The entries among the first `n` lines, each with its number and its trimmed text.
pub open spec fn entries_up_to(all: Seq<Seq<char>>, n: int) -> Seq<(int, Seq<char>)>
    decreases n,
{
    if n <= 0 {
        seq![]
    } else if is_entry(all[n - 1]) {
        entries_up_to(all, n - 1).push((n, trimmed(all[n - 1])))
    } else {
        entries_up_to(all, n - 1)
    }
}

/// The entries of a file.
pub open spec fn entries_of(content: Seq<char>) -> Seq<(int, Seq<char>)> {
    entries_up_to(lines_of(content), lines_of(content).len() as int)
}

/// The entries of a file: each line that is neither blank nor a comment.
pub fn entry_lines(content: &str) -> (out: Vec<EntryLine>)
    ensures
        entry_views(out@) == entries_of(content@),
{
    let all = lines(content);
    let mut out: Vec<EntryLine> = Vec::new();
    let mut i: usize = 0;
    assert(entry_views(out@) =~= seq![]);
    while i < all.len()
        invariant
            i <= all@.len(),
            entry_views(out@) == entries_up_to(texts(all@), i as int),
        decreases all@.len() - i,
    {
        let ghost before = out@;
        let text = trim(all[i].as_str());
        assert(texts(all@)[i as int] == all@[i as int]@);
        let is_comment = text.as_str().unicode_len() > 0 && text.as_str().get_char(0) == '#';
        if !text.as_str().is_empty() && !is_comment {
            let entry = EntryLine { number: i + 1, text };
            let ghost e = entry@;
            out.push(entry);
            assert(entry_views(out@) =~= entry_views(before).push(e));
        }
        i += 1;
    }
    out
}

/// Comments and blank lines make no difference: an entry is there exactly where its line is
/// neither, and the entries keep the order of the lines.
pub proof fn law_entries_keep_order(all: Seq<Seq<char>>, n: int)
    requires
        0 <= n <= all.len(),
    ensures
        forall|k: int|
            0 <= k < entries_up_to(all, n).len() ==> {
                let (number, text) = #[trigger] entries_up_to(all, n)[k];
                &&& 1 <= number <= n
                &&& is_entry(all[number - 1])
                &&& text == trimmed(all[number - 1])
            },
        forall|i: int, j: int|
            0 <= i < j < entries_up_to(all, n).len() ==> (#[trigger] entries_up_to(all, n)[i]).0 < (
            #[trigger] entries_up_to(all, n)[j]).0,
        forall|line: int|
            0 <= line < n && is_entry(#[trigger] all[line]) ==> entries_up_to(all, n).contains(
                (line + 1, trimmed(all[line])),
            ),
    decreases n,
{
    if n > 0 {
        law_entries_keep_order(all, n - 1);
        let shorter = entries_up_to(all, n - 1);
        let longer = entries_up_to(all, n);
        if is_entry(all[n - 1]) {
            let e = (n, trimmed(all[n - 1]));
            assert(longer == shorter.push(e));
            assert(longer[shorter.len() as int] == e);
            assert forall|line: int| 0 <= line < n && is_entry(#[trigger] all[line]) implies
                longer.contains((line + 1, trimmed(all[line]))) by {
                if line < n - 1 {
                    let k = choose|k: int|
                        0 <= k < shorter.len() && shorter[k] == (line + 1, trimmed(all[line]));
                    assert(longer[k] == shorter[k]);
                }
            }
        }
    }
}

/// What `serde_json::from_str` makes of a text: the text of its error where it is no JSON value,
/// `None` where it is one but no object, and the keys of the object otherwise.
pub uninterp spec fn json_keys(text: Seq<char>) -> Result<Option<Seq<Seq<char>>>, Seq<char>>;

/// `serde_json::from_str` into a JSON value depends on the text alone: so do whether it is an
/// object, its keys in the order in which the map lists them, and the text of the error.
#[verifier::external_body]
fn parse_json(text: &str) -> (r: Result<Option<Vec<String>>, String>)
    ensures
        match r {
            Ok(Some(keys)) => json_keys(text@) == Ok::<_, Seq<char>>(Some(texts(keys@))),
            Ok(None) => json_keys(text@) == Ok::<_, Seq<char>>(None::<Seq<Seq<char>>>),
            Err(why) => json_keys(text@) == Err::<Option<Seq<Seq<char>>>, _>(why@),
        },
{
    match serde_json::from_str::<serde_json::Value>(text) {
        Ok(serde_json::Value::Object(fields)) => Ok(Some(fields.keys().cloned().collect())),
        Ok(serde_json::Value::Null) => Ok(None),
        Ok(serde_json::Value::Bool(_)) => Ok(None),
        Ok(serde_json::Value::Number(_)) => Ok(None),
        Ok(serde_json::Value::String(_)) => Ok(None),
        Ok(serde_json::Value::Array(_)) => Ok(None),
        Err(err) => Err(err.to_string()),
    }
}

/// What a line is.
#[derive(Debug)]
pub enum LineCheck {
    /// A JSON object; these of its fields are not known, in order.
    Object { unknown: Vec<String> },
    /// A JSON value, but no object.
    NotObject,
    /// No JSON value, for this reason.
    Malformed(String),
}

/// The keys that entries of this kind of file do not have.
pub open spec fn unknown_among(kind: FileKind, keys: Seq<Seq<char>>) -> Seq<Seq<char>> {
    keys.filter(|key: Seq<char>| !kind.has_field(key))
}

/// The keys that entries of this kind of file do not have, in order.
pub fn unknown_fields(kind: FileKind, keys: &Vec<String>) -> (out: Vec<String>)
    ensures
        TextOrder::CodePoints.sorted(texts(out@)),
        texts(out@).to_multiset() == unknown_among(kind, texts(keys@)).to_multiset(),
{
    let mut unknown: Vec<String> = Vec::new();
    let mut i: usize = 0;
    let ghost all = texts(keys@);
    let ghost pred = |key: Seq<char>| !kind.has_field(key);
    assert(texts(unknown@) =~= all.take(0).filter(pred)) by {
        reveal(Seq::filter);
    }
    while i < keys.len()
        invariant
            i <= keys@.len(),
            all == texts(keys@),
            pred == (|key: Seq<char>| !kind.has_field(key)),
            texts(unknown@) == all.take(i as int).filter(pred),
        decreases keys@.len() - i,
    {
        let ghost before = unknown@;
        proof {
            assert(all.take(i + 1).drop_last() =~= all.take(i as int));
            assert(all.take(i + 1).last() == keys@[i as int]@);
            reveal(Seq::filter);
        }
        if !kind.knows_field(keys[i].as_str()) {
            unknown.push(keys[i].clone());
            assert(texts(unknown@) =~= texts(before).push(keys@[i as int]@));
        }
        i += 1;
    }
    assert(all.take(i as int) =~= all);
    TextOrder::CodePoints.sort(unknown)
}

/// Whether `check` tells what the line is, with the unknown fields in order.
pub open spec fn describes(kind: FileKind, text: Seq<char>, check: LineCheck) -> bool {
    match json_keys(text) {
        Ok(Some(keys)) => check matches LineCheck::Object { unknown }
            && TextOrder::CodePoints.sorted(texts(unknown@)) && texts(unknown@).to_multiset()
            == unknown_among(kind, keys).to_multiset(),
        Ok(None) => check is NotObject,
        Err(reason) => check matches LineCheck::Malformed(why) && why@ == reason,
    }
}

/// Parse one trimmed line as a JSON object and reject anything else.
///
/// The loader keeps malformed or non-object lines as warnings instead of hard
/// failures so a single bad entry does not discard an entire rules file.
pub fn check_json_object(kind: FileKind, text: &str) -> (check: LineCheck)
    ensures
        describes(kind, text@, check),
{
    judge_json(kind, parse_json(text))
}

/// Whether each entry of a list stands with what it is.
pub open spec fn are_described(kind: FileKind, all: Seq<(EntryLine, LineCheck)>) -> bool {
    forall|i: int| 0 <= i < all.len() ==> describes(kind, (#[trigger] all[i]).0.text@, all[i].1)
}

/// The number and the text of each entry of a list.
pub open spec fn checked_views(all: Seq<(EntryLine, LineCheck)>) -> Seq<(int, Seq<char>)> {
    all.map_values(|e: (EntryLine, LineCheck)| e.0@)
}

/// The entries of a file, each with what it is.
pub fn checked_lines(kind: FileKind, content: &str) -> (out: Vec<(EntryLine, LineCheck)>)
    ensures
        checked_views(out@) == entries_of(content@),
        are_described(kind, out@),
{
    let entries = entry_lines(content);
    let ghost all = entry_views(entries@);
    let mut out: Vec<(EntryLine, LineCheck)> = Vec::new();
    let mut i: usize = 0;
    assert(checked_views(out@) =~= all.take(0));
    while i < entries.len()
        invariant
            i <= entries@.len(),
            all == entry_views(entries@),
            checked_views(out@) == all.take(i as int),
            are_described(kind, out@),
        decreases entries@.len() - i,
    {
        let ghost before = out@;
        let entry = EntryLine { number: entries[i].number, text: entries[i].text.clone() };
        let check = check_json_object(kind, entry.text.as_str());
        assert(entry@ == all[i as int]);
        out.push((entry, check));
        assert(checked_views(out@) =~= checked_views(before).push(all[i as int]));
        assert(checked_views(out@) =~= all.take(i + 1));
        i += 1;
    }
    assert(all.take(i as int) =~= all);
    out
}

/// What a line is, from what the JSON parser made of it.
pub fn judge_json(kind: FileKind, parsed: Result<Option<Vec<String>>, String>) -> (check: LineCheck)
    ensures
        match parsed {
            Ok(Some(keys)) => check matches LineCheck::Object { unknown }
                && TextOrder::CodePoints.sorted(texts(unknown@)) && texts(unknown@).to_multiset()
                == unknown_among(kind, texts(keys@)).to_multiset(),
            Ok(None) => check is NotObject,
            Err(reason) => check matches LineCheck::Malformed(why) && why@ == reason@,
        },
{
    match parsed {
        Ok(Some(keys)) => LineCheck::Object { unknown: unknown_fields(kind, &keys) },
        Ok(None) => LineCheck::NotObject,
        Err(reason) => LineCheck::Malformed(reason),
    }
}

} // verus!
