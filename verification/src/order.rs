//! The orders in which names and file paths are listed.

use vstd::prelude::*;

use crate::text::{chars_of, texts};

verus! {

/// Positions as numbers.
pub open spec fn positions(v: Seq<usize>) -> Seq<int> {
    v.map_values(|i: usize| i as int)
}

/// How two texts are compared: character by character, by the rank of each character.
#[derive(Clone, Copy, Debug, PartialEq, Eq)]
pub enum TextOrder {
    /// By code point, as strings compare.
    CodePoints,
    /// As file paths compare where they hold no empty and no `.` components: component by
    /// component, so that the separator ranks below every other character. The paths of the
    /// files in one directory differ in their last component alone.
    PathComponents,
}

impl TextOrder {
    /// Rank of `c` among the characters.
    pub open spec fn rank(self, c: char) -> int {
        match self {
            TextOrder::CodePoints => c as int,
            TextOrder::PathComponents => if c == '/' {
                -1
            } else {
                c as int
            },
        }
    }

    /// Whether `a` comes before `b` or equals it: at the first difference the lower rank
    /// decides, and a text comes before every text that extends it.
    pub open spec fn le(self, a: Seq<char>, b: Seq<char>) -> bool
        decreases a.len(),
    {
        if a.len() == 0 {
            true
        } else if b.len() == 0 {
            false
        } else if a[0] == b[0] {
            self.le(a.drop_first(), b.drop_first())
        } else {
            self.rank(a[0]) < self.rank(b[0])
        }
    }

    /// Whether the texts stand in ascending order.
    pub open spec fn sorted(self, s: Seq<Seq<char>>) -> bool {
        forall|i: int, j: int| 0 <= i <= j < s.len() ==> self.le(#[trigger] s[i], #[trigger] s[j])
    }

    proof fn lemma_rank_distinguishes(self, a: char, b: char)
        requires
            a != b,
        ensures
            self.rank(a) != self.rank(b),
    {
    }

    /// Any two texts are comparable.
    pub proof fn lemma_le_total(self, a: Seq<char>, b: Seq<char>)
        ensures
            self.le(a, b) || self.le(b, a),
        decreases a.len(),
    {
        if a.len() > 0 && b.len() > 0 && a[0] == b[0] {
            self.lemma_le_total(a.drop_first(), b.drop_first());
        } else if a.len() > 0 && b.len() > 0 {
            self.lemma_rank_distinguishes(a[0], b[0]);
        }
    }

    /// The order is transitive.
    pub proof fn lemma_le_transitive(self, a: Seq<char>, b: Seq<char>, c: Seq<char>)
        requires
            self.le(a, b),
            self.le(b, c),
        ensures
            self.le(a, c),
        decreases a.len(),
    {
        if a.len() > 0 && b.len() > 0 && c.len() > 0 && a[0] == b[0] && b[0] == c[0] {
            self.lemma_le_transitive(a.drop_first(), b.drop_first(), c.drop_first());
        }
    }

    /// Two texts that precede each other are equal, so a sorted list is the only one of its
    /// members.
    pub proof fn lemma_le_antisymmetric(self, a: Seq<char>, b: Seq<char>)
        requires
            self.le(a, b),
            self.le(b, a),
        ensures
            a == b,
        decreases a.len(),
    {
        if a.len() > 0 && b.len() > 0 {
            self.lemma_le_antisymmetric(a.drop_first(), b.drop_first());
            assert(a == seq![a[0]] + a.drop_first());
            assert(b == seq![b[0]] + b.drop_first());
        } else {
            assert(a =~= b);
        }
    }

    fn char_before(self, a: char, b: char) -> (r: bool)
        ensures
            r == (self.rank(a) < self.rank(b)),
    {
        match self {
            TextOrder::CodePoints => a < b,
            TextOrder::PathComponents => b != '/' && (a == '/' || a < b),
        }
    }

    /// Whether `a` comes before `b` or equals it.
    pub fn not_after(self, a: &str, b: &str) -> (r: bool)
        ensures
            r == self.le(a@, b@),
    {
        let x = chars_of(a);
        let y = chars_of(b);
        let mut i: usize = 0;
        assert(x@.skip(0) == x@ && y@.skip(0) == y@);
        while i < x.len() && i < y.len() && x[i] == y[i]
            invariant
                i <= x@.len(),
                i <= y@.len(),
                self.le(x@, y@) == self.le(x@.skip(i as int), y@.skip(i as int)),
            decreases x@.len() - i,
        {
            assert(x@.skip(i as int).drop_first() == x@.skip(i + 1));
            assert(y@.skip(i as int).drop_first() == y@.skip(i + 1));
            i += 1;
        }
        if i == x.len() {
            true
        } else if i == y.len() {
            false
        } else {
            self.char_before(x[i], y[i])
        }
    }

    /// The same texts in ascending order.
    pub fn sort(self, items: Vec<String>) -> (out: Vec<String>)
        ensures
            self.sorted(texts(out@)),
            texts(out@).to_multiset() == texts(items@).to_multiset(),
    {
        let mut rest = items;
        let mut out: Vec<String> = Vec::new();
        assert(texts(out@) =~= Seq::<Seq<char>>::empty());
        assert(texts(out@).to_multiset().add(texts(rest@).to_multiset()) =~= texts(
            items@,
        ).to_multiset()) by {
            broadcast use vstd::seq_lib::group_to_multiset_ensures;

        }
        while rest.len() > 0
            invariant
                self.sorted(texts(out@)),
                texts(out@).to_multiset().add(texts(rest@).to_multiset()) == texts(
                    items@,
                ).to_multiset(),
            decreases rest@.len(),
        {
            let ghost before = texts(out@);
            let ghost waiting = texts(rest@);
            let item = rest.pop().unwrap();
            let ghost text = item@;
            let mut k: usize = 0;
            while k < out.len() && self.not_after(out[k].as_str(), item.as_str())
                invariant
                    k <= out@.len(),
                    before == texts(out@),
                    text == item@,
                    forall|j: int| 0 <= j < k ==> self.le(#[trigger] before[j], text),
                decreases out@.len() - k,
            {
                k += 1;
            }
            out.insert(k, item);
            proof {
                assert(waiting.last() == text);
                assert(texts(rest@) =~= waiting.drop_last());
                assert(waiting =~= waiting.drop_last().push(text));
                assert(texts(out@) =~= before.insert(k as int, text));
                broadcast use vstd::seq_lib::group_to_multiset_ensures;
                self.lemma_insert_sorted(before, k as int, text);
                assert(texts(out@).to_multiset().add(texts(rest@).to_multiset())
                    =~= before.to_multiset().add(waiting.to_multiset()));
            }
        }
        proof {
            assert(texts(rest@) =~= Seq::<Seq<char>>::empty());
            broadcast use vstd::seq_lib::group_to_multiset_ensures;
            assert(texts(out@).to_multiset().add(texts(rest@).to_multiset()) =~= texts(
                out@,
            ).to_multiset());
        }
        out
    }

    proof fn lemma_insert_sorted(self, s: Seq<Seq<char>>, k: int, text: Seq<char>)
        requires
            self.sorted(s),
            0 <= k <= s.len(),
            forall|j: int| 0 <= j < k ==> self.le(#[trigger] s[j], text),
            k < s.len() ==> !self.le(s[k], text),
        ensures
            self.sorted(s.insert(k, text)),
    {
        let t = s.insert(k, text);
        assert forall|i: int, j: int| 0 <= i <= j < t.len() implies self.le(
            #[trigger] t[i],
            #[trigger] t[j],
        ) by {
            if i == k && j == k {
                self.lemma_le_total(text, text);
            } else if i == k {
                self.lemma_le_total(s[k], text);
                assert(self.le(s[k], s[j - 1]));
                self.lemma_le_transitive(text, s[k], s[j - 1]);
            } else if j == k {
                assert(t[i] == s[i]);
            } else {
                let a = if i < k {
                    i
                } else {
                    i - 1
                };
                let b = if j < k {
                    j
                } else {
                    j - 1
                };
                assert(t[i] == s[a] && t[j] == s[b]);
            }
        }
    }

    /// Where a text belongs in a ranking: behind the last that it does not come before.
    pub open spec fn place(self, all: Seq<Seq<char>>, ranking: Seq<int>, text: Seq<char>) -> int
        decreases ranking.len(),
    {
        if ranking.len() == 0 || self.le(all[ranking.last()], text) {
            ranking.len() as int
        } else {
            self.place(all, ranking.drop_last(), text)
        }
    }

    /// The positions of the first `n` texts, in the order of the texts; equal texts keep the
    /// order of their positions.
    pub open spec fn ranking(self, all: Seq<Seq<char>>, n: int) -> Seq<int>
        decreases n,
    {
        if n <= 0 {
            seq![]
        } else {
            let before = self.ranking(all, n - 1);
            before.insert(self.place(all, before, all[n - 1]), n - 1)
        }
    }

    proof fn lemma_place(self, all: Seq<Seq<char>>, ranking: Seq<int>, text: Seq<char>)
        requires
            forall|i: int, j: int|
                0 <= i <= j < ranking.len() ==> self.le(
                    all[#[trigger] ranking[i]],
                    all[#[trigger] ranking[j]],
                ),
        ensures
            0 <= self.place(all, ranking, text) <= ranking.len(),
            forall|j: int|
                0 <= j < self.place(all, ranking, text) ==> self.le(
                    all[#[trigger] ranking[j]],
                    text,
                ),
            forall|j: int|
                self.place(all, ranking, text) <= j < ranking.len() ==> !self.le(
                    all[#[trigger] ranking[j]],
                    text,
                ),
        decreases ranking.len(),
    {
        if ranking.len() > 0 {
            let last = ranking.len() - 1;
            if self.le(all[ranking.last()], text) {
                assert forall|j: int| 0 <= j < ranking.len() implies self.le(
                    all[#[trigger] ranking[j]],
                    text,
                ) by {
                    assert(self.le(all[ranking[j]], all[ranking[last]]));
                    self.lemma_le_transitive(all[ranking[j]], all[ranking[last]], text);
                }
            } else {
                let shorter = ranking.drop_last();
                assert forall|i: int, j: int| 0 <= i <= j < shorter.len() implies self.le(
                    all[#[trigger] shorter[i]],
                    all[#[trigger] shorter[j]],
                ) by {
                    assert(self.le(all[ranking[i]], all[ranking[j]]));
                }
                self.lemma_place(all, shorter, text);
                assert forall|j: int| 0 <= j < self.place(all, ranking, text) implies self.le(
                    all[#[trigger] ranking[j]],
                    text,
                ) by {
                    assert(self.le(all[shorter[j]], text));
                }
                assert forall|j: int|
                    self.place(all, ranking, text) <= j < ranking.len() implies !self.le(
                    all[#[trigger] ranking[j]],
                    text,
                ) by {
                    if j < last {
                        assert(!self.le(all[shorter[j]], text));
                    }
                }
            }
        }
    }

    /// A ranking holds each position exactly once, and its texts ascend.
    pub proof fn law_ranking_ascends(self, all: Seq<Seq<char>>, n: int)
        requires
            0 <= n <= all.len(),
        ensures
            self.ranking(all, n).len() == n,
            forall|k: int| 0 <= k < n ==> 0 <= #[trigger] self.ranking(all, n)[k] < n,
            forall|i: int, j: int|
                0 <= i < j < n ==> #[trigger] self.ranking(all, n)[i]
                    != #[trigger] self.ranking(all, n)[j],
            forall|p: int| 0 <= p < n ==> #[trigger] self.ranking(all, n).contains(p),
            forall|i: int, j: int|
                0 <= i <= j < n ==> self.le(
                    all[#[trigger] self.ranking(all, n)[i]],
                    all[#[trigger] self.ranking(all, n)[j]],
                ),
            forall|i: int, j: int|
                0 <= i < j < n && all[self.ranking(all, n)[i]] == all[self.ranking(all, n)[j]]
                    ==> #[trigger] self.ranking(all, n)[i] < #[trigger] self.ranking(all, n)[j],
        decreases n,
    {
        if n > 0 {
            self.law_ranking_ascends(all, n - 1);
            let before = self.ranking(all, n - 1);
            let text = all[n - 1];
            let k = self.place(all, before, text);
            self.lemma_place(all, before, text);
            let after = self.ranking(all, n);
            assert(after == before.insert(k, n - 1));
            assert forall|i: int| 0 <= i < n implies after[i] == (if i < k {
                before[i]
            } else if i == k {
                n - 1
            } else {
                before[i - 1]
            }) by {}
            assert forall|p: int| 0 <= p < n implies #[trigger] after.contains(p) by {
                if p == n - 1 {
                    assert(after[k] == p);
                } else {
                    assert(before.contains(p));
                    let i = choose|i: int| 0 <= i < before.len() && before[i] == p;
                    if i < k {
                        assert(after[i] == p);
                    } else {
                        assert(after[i + 1] == p);
                    }
                }
            }
            assert forall|i: int, j: int| 0 <= i <= j < n implies self.le(
                all[#[trigger] after[i]],
                all[#[trigger] after[j]],
            ) by {
                if i == k && j == k {
                    self.lemma_le_total(text, text);
                } else if i == k {
                    self.lemma_le_total(all[before[j - 1]], text);
                }
            }
            assert forall|i: int, j: int|
                0 <= i < j < n && all[after[i]] == all[after[j]] implies #[trigger] after[i]
                < #[trigger] after[j] by {
                if i == k {
                    self.lemma_le_total(text, text);
                }
            }
        }
    }

    /// The positions of the texts, in the order of the texts.
    pub fn rank_all(self, items: &Vec<String>) -> (out: Vec<usize>)
        ensures
            positions(out@) == self.ranking(
                texts(items@),
                items@.len() as int,
            ),
    {
        let ghost all = texts(items@);
        let mut out: Vec<usize> = Vec::new();
        let mut n: usize = 0;
        assert(positions(out@) =~= self.ranking(all, 0));
        while n < items.len()
            invariant
                n <= items@.len(),
                all == texts(items@),
                positions(out@) == self.ranking(all, n as int),
            decreases items@.len() - n,
        {
            let ghost before = self.ranking(all, n as int);
            let ghost text = all[n as int];
            proof {
                self.law_ranking_ascends(all, n as int);
            }
            let mut k: usize = out.len();
            assert(before.take(k as int) =~= before);
            assert forall|j: int| 0 <= j < out@.len() implies out@[j] == #[trigger] before[j] by {
                assert(positions(out@)[j] == out@[j] as int);
            }
            while k > 0 && !self.not_after(items[out[k - 1]].as_str(), items[n].as_str())
                invariant
                    k <= out@.len() == before.len() == n < items@.len(),
                    all == texts(items@),
                    text == all[n as int],
                    forall|j: int| 0 <= j < out@.len() ==> out@[j] == #[trigger] before[j],
                    forall|j: int| 0 <= j < before.len() ==> 0 <= #[trigger] before[j] < n,
                    self.place(all, before, text) == self.place(
                        all,
                        before.take(k as int),
                        text,
                    ),
                decreases k,
            {
                proof {
                    let part = before.take(k as int);
                    assert(part.last() == before[k - 1]);
                    assert(part.drop_last() =~= before.take(k - 1));
                    assert(out@[k - 1] == before[k - 1]);
                }
                k -= 1;
            }
            proof {
                let part = before.take(k as int);
                if k > 0 {
                    assert(part.last() == before[k - 1]);
                    assert(out@[k - 1] == before[k - 1]);
                }
                assert(self.place(all, before, text) == k);
            }
            out.insert(k, n);
            assert(positions(out@) =~= before.insert(k as int, n as int));
            n += 1;
        }
        out
    }
}

} // verus!
