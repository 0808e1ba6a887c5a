//! Association lists: maps from names to values, kept as a vector of
//! `(name, value)` pairs. A name that occurs more than once is looked up by
//! its first entry.
use vstd::prelude::*;

use crate::text::{chars_eq, chars_of};

verus! {

/// Index of the first entry at or after `i` whose name is `k`
/// (`m.len()` when there is none).
pub open spec fn key_index_from<V>(m: Seq<(String, V)>, k: Seq<char>, i: int) -> int
    decreases m.len() - i,
{
    if 0 <= i < m.len() && m[i].0@ != k {
        key_index_from(m, k, i + 1)
    } else {
        i
    }
}

/// Index of the first entry named `k` (`m.len()` when there is none).
pub open spec fn key_index<V>(m: Seq<(String, V)>, k: Seq<char>) -> int {
    key_index_from(m, k, 0)
}

/// The value of the first entry named `k`.
pub open spec fn lookup<V>(m: Seq<(String, V)>, k: Seq<char>) -> Option<V> {
    let i = key_index(m, k);
    if 0 <= i < m.len() {
        Some(m[i].1)
    } else {
        None
    }
}

/// Whether some entry is named `k`.
pub open spec fn has_key<V>(m: Seq<(String, V)>, k: Seq<char>) -> bool {
    exists|i: int| 0 <= i < m.len() && m[i].0@ == k
}

pub proof fn lemma_key_index_from<V>(m: Seq<(String, V)>, k: Seq<char>, i: int)
    requires
        0 <= i <= m.len(),
    ensures
        i <= key_index_from(m, k, i) <= m.len(),
        key_index_from(m, k, i) < m.len() ==> m[key_index_from(m, k, i)].0@ == k,
        forall|j: int| i <= j < key_index_from(m, k, i) ==> m[j].0@ != k,
    decreases m.len() - i,
{
    if i < m.len() && m[i].0@ != k {
        lemma_key_index_from(m, k, i + 1);
    }
}

/// The lookup finds a value exactly when some entry has the name.
pub proof fn lemma_lookup<V>(m: Seq<(String, V)>, k: Seq<char>)
    ensures
        lookup(m, k) is Some <==> has_key(m, k),
        0 <= key_index(m, k) <= m.len(),
{
    lemma_key_index_from(m, k, 0);
    let i = key_index(m, k);
    if has_key(m, k) {
        let j = choose|j: int| 0 <= j < m.len() && m[j].0@ == k;
        assert(i <= j);
    }
}

/// Index of the first entry named `k`, or `m.len()`.
pub fn find_key<V>(m: &Vec<(String, V)>, k: &str) -> (r: usize)
    ensures
        r == key_index(m@, k@),
        r <= m.len(),
{
    proof {
        lemma_key_index_from(m@, k@, 0);
    }
    let kv = chars_of(k);
    let mut i: usize = 0;
    while i < m.len()
        invariant
            i <= m.len(),
            kv@ == k@,
            key_index_from(m@, k@, i as int) == key_index(m@, k@),
        decreases m.len() - i,
    {
        let name = chars_of(m[i].0.as_str());
        if chars_eq(&name, &kv) {
            return i;
        }
        i = i + 1;
    }
    i
}


/// No name occurs in two entries.
pub open spec fn unique_names<V>(m: Seq<(String, V)>) -> bool {
    forall|i: int, j: int| 0 <= i < j < m.len() ==> (#[trigger] m[i]).0@ != (#[trigger] m[j]).0@
}

/// Whether no name occurs in two entries.
pub fn names_unique<V>(m: &Vec<(String, V)>) -> (r: bool)
    ensures
        r == unique_names(m@),
{
    let mut j: usize = 0;
    while j < m.len()
        invariant
            j <= m.len(),
            forall|a: int, b: int| 0 <= a < b < j ==> (#[trigger] m@[a]).0@ != (#[trigger] m@[b]).0@,
        decreases m.len() - j,
    {
        let nj = chars_of(m[j].0.as_str());
        let mut i: usize = 0;
        while i < j
            invariant
                i <= j < m.len(),
                nj@ == m@[j as int].0@,
                forall|a: int| 0 <= a < i ==> (#[trigger] m@[a]).0@ != m@[j as int].0@,
            decreases j - i,
        {
            let ni = chars_of(m[i].0.as_str());
            if chars_eq(&ni, &nj) {
                return false;
            }
            i = i + 1;
        }
        j = j + 1;
    }
    true
}

} // verus!
