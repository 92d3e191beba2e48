//! Association lists keyed by strings.
//!
//! Every mapping in a document (schemas, properties, resources, methods,
//! parameters) is held as a vector of key/value pairs whose keys are unique;
//! insertion order is kept but carries no meaning.

use vstd::prelude::*;
use crate::text::str_eq;

verus! {

/// No two entries share a key.
pub open spec fn unique_keys<V>(m: Seq<(Seq<char>, V)>) -> bool {
    forall|i: int, j: int| 0 <= i < j < m.len() ==> (#[trigger] m[i]).0 != (#[trigger] m[j]).0
}

/// The value stored under `k`: the first entry whose key is `k`, if any.
pub open spec fn assoc_get<V>(m: Seq<(Seq<char>, V)>, k: Seq<char>) -> Option<V>
    decreases m.len(),
{
    if m.len() == 0 {
        None
    } else if m[0].0 == k {
        Some(m[0].1)
    } else {
        assoc_get(m.skip(1), k)
    }
}

/// Some entry has key `k`.
pub open spec fn assoc_contains<V>(m: Seq<(Seq<char>, V)>, k: Seq<char>) -> bool {
    exists|i: int| 0 <= i < m.len() && (#[trigger] m[i]).0 == k
}

/// `assoc_get` finds an entry exactly when one exists.
pub proof fn lemma_assoc_get_contains<V>(m: Seq<(Seq<char>, V)>, k: Seq<char>)
    ensures
        assoc_get(m, k) is Some <==> assoc_contains(m, k),
    decreases m.len(),
{
    if m.len() > 0 {
        lemma_assoc_get_contains(m.skip(1), k);
        if m[0].0 == k {
            assert(assoc_contains(m, k));
        } else {
            if assoc_contains(m.skip(1), k) {
                let i = choose|i: int| 0 <= i < m.skip(1).len() && m.skip(1)[i].0 == k;
                assert(m[i + 1].0 == k);
            }
            if assoc_contains(m, k) {
                let i = choose|i: int| 0 <= i < m.len() && m[i].0 == k;
                assert(m.skip(1)[i - 1].0 == k);
            }
        }
    }
}

/// Under unique keys, `assoc_get` returns the value of any entry with key `k`.
pub proof fn lemma_assoc_get_unique<V>(m: Seq<(Seq<char>, V)>, i: int)
    requires
        unique_keys(m),
        0 <= i < m.len(),
    ensures
        assoc_get(m, m[i].0) == Some(m[i].1),
    decreases m.len(),
{
    if i == 0 {
    } else {
        assert(m[0].0 != m[i].0);
        assert(m.skip(1)[i - 1] == m[i]);
        assert(unique_keys(m.skip(1))) by {
            assert(forall|p: int, q: int|
                0 <= p < q < m.skip(1).len() ==> (#[trigger] m.skip(1)[p]).0 != (#[trigger] m.skip(
                    1,
                )[q]).0) by {
                assert(forall|p: int|
                    0 <= p < m.skip(1).len() ==> #[trigger] m.skip(1)[p] == m[p + 1]);
            }
        }
        lemma_assoc_get_unique(m.skip(1), i - 1);
    }
}

/// Looks up `k` in the entry list, returning a borrow of the first value
/// stored under it.
pub fn lookup<'a, V: DeepView>(m: &'a Vec<(String, V)>, k: &str) -> (r: Option<&'a V>)
    ensures
        match r {
            Some(v) => assoc_get(m.deep_view(), k@) == Some(v.deep_view()),
            None => assoc_get(m.deep_view(), k@) is None,
        },
{
    let ghost mv = m.deep_view();
    let mut i: usize = 0;
    while i < m.len()
        invariant
            0 <= i <= m.len(),
            mv == m.deep_view(),
            mv.len() == m.len(),
            forall|j: int| 0 <= j < i ==> (#[trigger] mv[j]).0 != k@,
        decreases m.len() - i,
    {
        assert(mv[i as int] == (m@[i as int].0@, m@[i as int].1.deep_view()));
        if str_eq(m[i].0.as_str(), k) {
            proof {
                lemma_assoc_get_of_first_match(mv, k@, i as int);
            }
            return Some(&m[i].1);
        }
        i += 1;
    }
    proof {
        lemma_assoc_get_of_no_match(mv, k@);
    }
    None
}

/// Whether `k` is a key of the entry list.
pub fn has_key<V: DeepView>(m: &Vec<(String, V)>, k: &str) -> (r: bool)
    ensures
        r == assoc_contains(m.deep_view(), k@),
{
    let r = lookup(m, k);
    proof {
        lemma_assoc_get_contains(m.deep_view(), k@);
    }
    r.is_some()
}

/// If entries before `i` miss `k` and entry `i` has it, the lookup stops at `i`.
pub proof fn lemma_assoc_get_of_first_match<V>(m: Seq<(Seq<char>, V)>, k: Seq<char>, i: int)
    requires
        0 <= i < m.len(),
        m[i].0 == k,
        forall|j: int| 0 <= j < i ==> (#[trigger] m[j]).0 != k,
    ensures
        assoc_get(m, k) == Some(m[i].1),
    decreases i,
{
    if i > 0 {
        assert(forall|j: int|
            0 <= j < i - 1 ==> (#[trigger] m.skip(1)[j]).0 == m[j + 1].0 && m[j + 1].0 != k);
        assert(m.skip(1)[i - 1] == m[i]);
        lemma_assoc_get_of_first_match(m.skip(1), k, i - 1);
    }
}

/// If no entry has key `k`, the lookup misses.
pub proof fn lemma_assoc_get_of_no_match<V>(m: Seq<(Seq<char>, V)>, k: Seq<char>)
    requires
        forall|j: int| 0 <= j < m.len() ==> (#[trigger] m[j]).0 != k,
    ensures
        assoc_get(m, k) is None,
    decreases m.len(),
{
    if m.len() > 0 {
        assert(forall|j: int|
            0 <= j < m.skip(1).len() ==> (#[trigger] m.skip(1)[j]).0 == m[j + 1].0 && m[j
                + 1].0 != k);
        lemma_assoc_get_of_no_match(m.skip(1), k);
    }
}

} // verus!
