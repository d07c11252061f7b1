//! Ranking of items by score, for recency and frequency based suggestions.
//!
//! Scores are carried as signed order keys: any encoding of the caller's score whose
//! integer order is the order of the scores, with 0 standing for the score of an item
//! that was never liked.

use vstd::prelude::*;

use crate::keyed::{
    entries_view, find_key, index_of_key, keys_of, keys_unique, lemma_set_key_unique, set_key,
};

verus! {

broadcast use vstd::seq_lib::group_to_multiset_ensures;

/// The score of `item` in `table`, or 0 for an item that the table does not hold.
pub open spec fn score_of(table: Seq<(Seq<char>, i64)>, item: Seq<char>) -> i64 {
    let i = index_of_key(table, item);
    if i >= 0 {
        table[i].1
    } else {
        0
    }
}

/// Each item paired with its score.
pub open spec fn scored(items: Seq<Seq<char>>, table: Seq<(Seq<char>, i64)>) -> Seq<(Seq<char>, i64)> {
    items.map_values(|c: Seq<char>| (c, score_of(table, c)))
}

/// The number of leading entries of `s` whose score is at least `k`.
pub open spec fn insert_pos(s: Seq<(Seq<char>, i64)>, k: i64) -> int
    decreases s.len(),
{
    if s.len() == 0 {
        0
    } else if s[0].1 >= k {
        1 + insert_pos(s.drop_first(), k)
    } else {
        0
    }
}

/// `s` ordered by descending score; entries of equal score keep their order in `s`.
pub open spec fn rank(s: Seq<(Seq<char>, i64)>) -> Seq<(Seq<char>, i64)>
    decreases s.len(),
{
    if s.len() == 0 {
        s
    } else {
        let r = rank(s.drop_last());
        r.insert(insert_pos(r, s.last().1), s.last())
    }
}

/// Scores do not increase along `s`.
pub open spec fn sorted_desc(s: Seq<(Seq<char>, i64)>) -> bool {
    forall|a: int, b: int| 0 <= a < b < s.len() ==> s[a].1 >= s[b].1
}

proof fn lemma_insert_pos(s: Seq<(Seq<char>, i64)>, k: i64)
    ensures
        0 <= insert_pos(s, k) <= s.len(),
        forall|j: int| 0 <= j < insert_pos(s, k) ==> s[j].1 >= k,
        insert_pos(s, k) < s.len() ==> s[insert_pos(s, k)].1 < k,
    decreases s.len(),
{
    if s.len() > 0 && s[0].1 >= k {
        let t = s.drop_first();
        lemma_insert_pos(t, k);
        assert forall|j: int| 0 <= j < insert_pos(s, k) implies s[j].1 >= k by {
            if j > 0 {
                assert(s[j] == t[j - 1]);
            }
        }
    }
}

proof fn lemma_insert_pos_at(s: Seq<(Seq<char>, i64)>, k: i64, p: int)
    requires
        0 <= p <= s.len(),
        forall|j: int| 0 <= j < p ==> s[j].1 >= k,
        p == s.len() || s[p].1 < k,
    ensures
        insert_pos(s, k) == p,
    decreases p,
{
    if p > 0 {
        let t = s.drop_first();
        assert forall|j: int| 0 <= j < p - 1 implies t[j].1 >= k by {
            assert(t[j] == s[j + 1]);
        }
        lemma_insert_pos_at(t, k, p - 1);
    }
}

/// Ranking orders by descending score and keeps every entry, each as often as before.
pub proof fn lemma_rank_sorted_permutation(s: Seq<(Seq<char>, i64)>)
    ensures
        sorted_desc(rank(s)),
        rank(s).to_multiset() == s.to_multiset(),
        rank(s).len() == s.len(),
    decreases s.len(),
{
    if s.len() > 0 {
        let t = s.drop_last();
        let x = s.last();
        lemma_rank_sorted_permutation(t);
        let r = rank(t);
        let p = insert_pos(r, x.1);
        lemma_insert_pos(r, x.1);
        let q = r.insert(p, x);
        assert forall|a: int, b: int| 0 <= a < b < q.len() implies q[a].1 >= q[b].1 by {
            if b < p {
                assert(q[a] == r[a] && q[b] == r[b]);
            } else if b == p {
                assert(q[a] == r[a]);
            } else if a < p {
                assert(q[a] == r[a] && q[b] == r[b - 1]);
            } else if a == p {
                assert(q[b] == r[b - 1]);
                assert(r[p].1 < x.1);
            } else {
                assert(q[a] == r[a - 1] && q[b] == r[b - 1]);
            }
        }
        vstd::seq_lib::to_multiset_insert(r, p, x);
        assert(s == t.push(x));
        vstd::seq_lib::to_multiset_build(t, x);
    }
}

/// Whether an entry has the score `v`.
pub open spec fn score_is(v: i64) -> spec_fn((Seq<char>, i64)) -> bool {
    |e: (Seq<char>, i64)| e.1 == v
}

/// Ranking keeps the order of entries of equal score: for each score, the entries with
/// that score come in the same order as in the input.
pub proof fn lemma_rank_stable(s: Seq<(Seq<char>, i64)>, v: i64)
    ensures
        rank(s).filter(score_is(v)) == s.filter(score_is(v)),
    decreases s.len(),
{
    if s.len() > 0 {
        let t = s.drop_last();
        let x = s.last();
        let pred = score_is(v);
        lemma_rank_stable(t, v);
        lemma_rank_sorted_permutation(t);
        let r = rank(t);
        let p = insert_pos(r, x.1);
        lemma_insert_pos(r, x.1);
        let head = r.take(p);
        let tail = r.skip(p);
        assert(r == head + tail);
        assert(r.insert(p, x) == head + seq![x] + tail);
        vstd::seq::Seq::filter_distributes_over_add(head, tail, pred);
        vstd::seq::Seq::filter_distributes_over_add(head + seq![x], tail, pred);
        vstd::seq::Seq::filter_distributes_over_add(head, seq![x], pred);
        assert(seq![x] == Seq::<(Seq<char>, i64)>::empty().push(x));
        Seq::<(Seq<char>, i64)>::empty().lemma_filter_push(x, pred);
        assert(Seq::<(Seq<char>, i64)>::empty().filter(pred) =~= Seq::<(Seq<char>, i64)>::empty()) by {
            reveal(Seq::filter);
        }
        assert(s == t.push(x));
        t.lemma_filter_push(x, pred);
        if x.1 == v {
            assert forall|j: int| 0 <= j < tail.len() implies !pred(tail[j]) by {
                assert(tail[j] == r[p + j]);
                if j > 0 {
                    assert(r[p].1 >= r[p + j].1);
                }
            }
            tail.lemma_all_neg_filter_empty(pred);
            assert(r.filter(pred) == head.filter(pred));
            assert(rank(s).filter(pred) =~= head.filter(pred).push(x));
        } else {
            assert(rank(s).filter(pred) =~= head.filter(pred) + tail.filter(pred));
        }
    }
}

/// Ranks items by a score each: scores are looked up in a table of liked items, and the
/// ranked items are a fixed list, or else every liked item.
pub struct ScoreBoard {
    list: Option<Vec<String>>,
    scores: Vec<(String, i64)>,
}

impl ScoreBoard {
    /// The fixed list of items to rank, if one was given.
    pub closed spec fn list(&self) -> Option<Seq<Seq<char>>> {
        match self.list {
            Some(l) => Some(l@.map_values(|s: String| s@)),
            None => None,
        }
    }

    /// The liked items with their scores, in the order of their first like.
    pub closed spec fn table(&self) -> Seq<(Seq<char>, i64)> {
        entries_view(self.scores@)
    }

    pub open spec fn wf(&self) -> bool {
        keys_unique(self.table())
    }

    /// The items that a sort ranks.
    pub open spec fn candidates(&self) -> Seq<Seq<char>> {
        match self.list() {
            Some(l) => l,
            None => keys_of(self.table()),
        }
    }

    /// The candidates with their scores, ranked.
    pub open spec fn ranked(&self) -> Seq<(Seq<char>, i64)> {
        rank(scored(self.candidates(), self.table()))
    }

    /// A board that ranks every liked item.
    pub fn new() -> (r: ScoreBoard)
        ensures
            r.wf(),
            r.list() is None,
            r.table().len() == 0,
    {
        let r = ScoreBoard { list: None, scores: Vec::new() };
        assert(r.table() =~= Seq::<(Seq<char>, i64)>::empty());
        r
    }

    /// A board that ranks the items of `list`.
    pub fn new_with_list(list: Vec<String>) -> (r: ScoreBoard)
        ensures
            r.wf(),
            r.list() == Some(list@.map_values(|s: String| s@)),
            r.table().len() == 0,
    {
        let r = ScoreBoard { list: Some(list), scores: Vec::new() };
        assert(r.table() =~= Seq::<(Seq<char>, i64)>::empty());
        r
    }

    /// The score of `item`, or 0 if it was never liked.
    pub fn get(&self, item: &str) -> (r: i64)
        ensures
            r == score_of(self.table(), item@),
    {
        match find_key(&self.scores, item) {
            Some(i) => self.scores[i].1,
            None => 0,
        }
    }

    /// Sets the score of `item`; an item liked for the first time comes last in the table.
    pub fn set_score(&mut self, item: &str, score: i64)
        requires
            old(self).wf(),
        ensures
            final(self).wf(),
            final(self).list() == old(self).list(),
            final(self).table() == set_key(old(self).table(), item@, score),
    {
        let found = find_key(&self.scores, item);
        let key = item.to_owned();
        match found {
            Some(i) => {
                self.scores.set(i, (key, score));
            },
            None => {
                self.scores.push((key, score));
            },
        }
        proof {
            lemma_set_key_unique(old(self).table(), item@, score);
        }
        assert(self.table() =~= set_key(old(self).table(), item@, score));
    }

    fn candidate_count(&self) -> (r: usize)
        ensures
            r == self.candidates().len(),
    {
        match &self.list {
            Some(l) => l.len(),
            None => self.scores.len(),
        }
    }

    fn candidate(&self, i: usize) -> (r: &str)
        requires
            i < self.candidates().len(),
        ensures
            r@ == self.candidates()[i as int],
    {
        match &self.list {
            Some(l) => l[i].as_str(),
            None => self.scores[i].0.as_str(),
        }
    }

    /// Return items with their scores, sorted by rank: descending score, and items of
    /// equal score in the order of the candidates.
    pub fn sort_with_scores(&self) -> (r: Vec<(String, i64)>)
        ensures
            entries_view(r@) == self.ranked(),
            sorted_desc(entries_view(r@)),
            entries_view(r@).to_multiset() == scored(self.candidates(), self.table()).to_multiset(),
    {
        let ghost s = scored(self.candidates(), self.table());
        let n = self.candidate_count();
        let mut out: Vec<(String, i64)> = Vec::new();
        let mut i: usize = 0;
        assert(s.take(0) =~= Seq::<(Seq<char>, i64)>::empty());
        while i < n
            invariant
                n == self.candidates().len(),
                s == scored(self.candidates(), self.table()),
                i <= n,
                entries_view(out@) == rank(s.take(i as int)),
            decreases n - i,
        {
            let item = self.candidate(i);
            let score = self.get(item);
            let ghost r = entries_view(out@);
            let mut p: usize = 0;
            while p < out.len() && out[p].1 >= score
                invariant
                    r == entries_view(out@),
                    p <= out@.len(),
                    forall|j: int| 0 <= j < p ==> r[j].1 >= score,
                decreases out@.len() - p,
            {
                p = p + 1;
            }
            proof {
                lemma_insert_pos_at(r, score, p as int);
            }
            out.insert(p, (item.to_owned(), score));
            assert(s.take(i + 1).drop_last() =~= s.take(i as int));
            assert(s[i as int] == (item@, score));
            assert(entries_view(out@) =~= r.insert(p as int, (item@, score)));
            i = i + 1;
        }
        assert(s.take(n as int) =~= s);
        proof {
            lemma_rank_sorted_permutation(s);
        }
        out
    }

    /// Return items sorted by rank: descending score, and items of equal score in the
    /// order of the candidates.
    pub fn sort(&self) -> (r: Vec<String>)
        ensures
            r@.map_values(|s: String| s@) == keys_of(self.ranked()),
    {
        let scored_items = self.sort_with_scores();
        let mut out: Vec<String> = Vec::new();
        let mut i: usize = 0;
        while i < scored_items.len()
            invariant
                i <= scored_items@.len(),
                out@.len() == i,
                forall|j: int| 0 <= j < i ==> #[trigger] out@[j]@ == scored_items@[j].0@,
            decreases scored_items.len() - i,
        {
            out.push(scored_items[i].0.clone());
            i = i + 1;
        }
        assert(out@.map_values(|s: String| s@) =~= keys_of(entries_view(scored_items@)));
        out
    }
}

/// Sorting twice, with no change of the board between, gives the same items in the same
/// order.
pub proof fn lemma_sort_deterministic(b: ScoreBoard, r1: Seq<Seq<char>>, r2: Seq<Seq<char>>)
    requires
        r1 == keys_of(b.ranked()),
        r2 == keys_of(b.ranked()),
    ensures
        r1 == r2,
{
}

} // verus!
