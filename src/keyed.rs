//! Lists of `(name, value)` entries used as small maps: a lookup finds the
//! first entry with the given name, and an insert replaces that entry's value
//! or appends a new entry.
use vstd::prelude::*;

verus! {

/// The names of a list of entries.
pub open spec fn keys<V>(s: Seq<(Seq<char>, V)>) -> Seq<Seq<char>> {
    s.map_values(|p: (Seq<char>, V)| p.0)
}

/// Position of the first name at or after `start` that equals `k`.
pub open spec fn find_from(ks: Seq<Seq<char>>, k: Seq<char>, start: int) -> Option<int>
    decreases ks.len() - start,
{
    if start < 0 || start >= ks.len() {
        None
    } else if ks[start] == k {
        Some(start)
    } else {
        find_from(ks, k, start + 1)
    }
}

/// Position of the first entry named `k`.
pub open spec fn key_index<V>(s: Seq<(Seq<char>, V)>, k: Seq<char>) -> Option<int> {
    find_from(keys(s), k, 0)
}

/// The value of the first entry named `k`.
pub open spec fn lookup<V>(s: Seq<(Seq<char>, V)>, k: Seq<char>) -> Option<V> {
    match key_index(s, k) {
        Some(i) => Some(s[i].1),
        None => None,
    }
}

/// `s` with the value under `k` set to `v`.
pub open spec fn insert<V>(s: Seq<(Seq<char>, V)>, k: Seq<char>, v: V) -> Seq<(Seq<char>, V)> {
    match key_index(s, k) {
        Some(i) => s.update(i, (k, v)),
        None => s.push((k, v)),
    }
}

pub proof fn lemma_find_from(ks: Seq<Seq<char>>, k: Seq<char>, start: int)
    requires
        0 <= start,
    ensures
        match find_from(ks, k, start) {
            Some(i) => start <= i < ks.len() && ks[i] == k && forall|j: int|
                start <= j < i ==> ks[j] != k,
            None => forall|j: int| start <= j < ks.len() ==> ks[j] != k,
        },
    decreases ks.len() - start,
{
    if start < ks.len() && ks[start] != k {
        lemma_find_from(ks, k, start + 1);
    }
}

/// Position of the first entry of `v` named `k`.
pub fn position<V>(v: &Vec<(String, V)>, k: &String) -> (r: Option<usize>)
    ensures
        match r {
            Some(i) => find_from(v@.map_values(|p: (String, V)| p.0@), k@, 0) == Some(i as int)
                && i < v.len() && v@[i as int].0@ == k@,
            None => find_from(v@.map_values(|p: (String, V)| p.0@), k@, 0) is None && forall|j: int|
                0 <= j < v.len() ==> v@[j].0@ != k@,
        },
{
    let ghost ks = v@.map_values(|p: (String, V)| p.0@);
    let mut i: usize = 0;
    while i < v.len()
        invariant
            i <= v.len(),
            ks == v@.map_values(|p: (String, V)| p.0@),
            find_from(ks, k@, 0) == find_from(ks, k@, i as int),
            forall|j: int| 0 <= j < i ==> v@[j].0@ != k@,
        decreases v.len() - i,
    {
        if v[i].0 == *k {
            return Some(i);
        }
        i = i + 1;
    }
    None
}

} // verus!
