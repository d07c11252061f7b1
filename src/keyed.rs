//! Sequences of entries keyed by text, with at most one entry per key.

use vstd::prelude::*;

use crate::text::str_eq;

verus! {

/// The position of the first entry of `s` whose key is `k`, or -1.
pub open spec fn index_of_key<V>(s: Seq<(Seq<char>, V)>, k: Seq<char>) -> int
    decreases s.len(),
{
    if s.len() == 0 {
        -1
    } else if s[0].0 == k {
        0
    } else {
        let r = index_of_key(s.drop_first(), k);
        if r < 0 {
            -1
        } else {
            r + 1
        }
    }
}

/// No two entries of `s` share a key.
pub open spec fn keys_unique<V>(s: Seq<(Seq<char>, V)>) -> bool {
    forall|i: int, j: int| 0 <= i < j < s.len() ==> s[i].0 != s[j].0
}

/// `s` with the entry of key `k` given the value `v`, or with `(k, v)` added at the end.
pub open spec fn set_key<V>(s: Seq<(Seq<char>, V)>, k: Seq<char>, v: V) -> Seq<(Seq<char>, V)> {
    let i = index_of_key(s, k);
    if i >= 0 {
        s.update(i, (k, v))
    } else {
        s.push((k, v))
    }
}

/// The keys of `s`, in order.
pub open spec fn keys_of<V>(s: Seq<(Seq<char>, V)>) -> Seq<Seq<char>> {
    s.map_values(|p: (Seq<char>, V)| p.0)
}

/// The entries of a vector, with each key seen as its characters.
pub open spec fn entries_view<V>(v: Seq<(String, V)>) -> Seq<(Seq<char>, V)> {
    v.map_values(|p: (String, V)| (p.0@, p.1))
}

/// Where the first `i` keys differ from `k` and the key at `i` is `k` (or `i` is the end),
/// `index_of_key` is `i` (or -1).
pub proof fn lemma_index_of_key<V>(s: Seq<(Seq<char>, V)>, k: Seq<char>, i: int)
    requires
        0 <= i <= s.len(),
        forall|j: int| 0 <= j < i ==> s[j].0 != k,
        i == s.len() || s[i].0 == k,
    ensures
        index_of_key(s, k) == (if i == s.len() { -1 } else { i }),
    decreases i,
{
    if s.len() > 0 && i > 0 {
        let t = s.drop_first();
        assert forall|j: int| 0 <= j < i - 1 implies t[j].0 != k by {
            assert(t[j] == s[j + 1]);
        }
        lemma_index_of_key(t, k, i - 1);
    }
}

/// A found index holds the key; a missing key is held by no entry.
pub proof fn lemma_index_of_key_bounds<V>(s: Seq<(Seq<char>, V)>, k: Seq<char>)
    ensures
        -1 <= index_of_key(s, k) < s.len(),
        index_of_key(s, k) >= 0 ==> s[index_of_key(s, k)].0 == k,
        index_of_key(s, k) < 0 ==> forall|j: int| 0 <= j < s.len() ==> s[j].0 != k,
    decreases s.len(),
{
    if s.len() > 0 && s[0].0 != k {
        let t = s.drop_first();
        lemma_index_of_key_bounds(t, k);
        if index_of_key(t, k) < 0 {
            assert forall|j: int| 0 <= j < s.len() implies s[j].0 != k by {
                if j > 0 {
                    assert(s[j] == t[j - 1]);
                }
            }
        }
    }
}

/// Setting a key keeps the keys unique.
pub proof fn lemma_set_key_unique<V>(s: Seq<(Seq<char>, V)>, k: Seq<char>, v: V)
    requires
        keys_unique(s),
    ensures
        keys_unique(set_key(s, k, v)),
        index_of_key(set_key(s, k, v), k) >= 0,
        set_key(s, k, v)[index_of_key(set_key(s, k, v), k)] == (k, v),
{
    lemma_index_of_key_bounds(s, k);
    let r = set_key(s, k, v);
    let i = index_of_key(s, k);
    if i >= 0 {
        assert forall|a: int, b: int| 0 <= a < b < r.len() implies r[a].0 != r[b].0 by {
            assert(s[a].0 != s[b].0);
        }
        lemma_index_of_key(r, k, i);
    } else {
        lemma_index_of_key(r, k, s.len() as int);
    }
}

/// The position of the entry of key `k` in `entries`, if there is one.
pub fn find_key<V>(entries: &Vec<(String, V)>, k: &str) -> (r: Option<usize>)
    ensures
        index_of_key(entries_view(entries@), k@) == (match r {
            Some(i) => i as int,
            None => -1,
        }),
        r matches Some(i) ==> i < entries@.len(),
{
    let ghost s = entries_view(entries@);
    let mut i: usize = 0;
    while i < entries.len()
        invariant
            s == entries_view(entries@),
            i <= entries.len(),
            forall|j: int| 0 <= j < i ==> s[j].0 != k@,
        decreases entries.len() - i,
    {
        if str_eq(entries[i].0.as_str(), k) {
            proof {
                lemma_index_of_key(s, k@, i as int);
            }
            return Some(i);
        }
        i = i + 1;
    }
    proof {
        lemma_index_of_key(s, k@, i as int);
    }
    None
}

} // verus!
