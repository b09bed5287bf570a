//! Association lists keyed by [`Key`], with unique keys, seen as maps.

use crate::key::Key;
use vstd::prelude::*;

verus! {

/// No key occurs twice in `s`.
pub open spec fn keys_unique<V>(s: Seq<(Key, V)>) -> bool {
    forall|i: int, j: int| 0 <= i < j < s.len() ==> s[i].0 != s[j].0
}

/// Some entry of `s` has key `k`.
pub open spec fn has_key<V>(s: Seq<(Key, V)>, k: Key) -> bool {
    exists|i: int| 0 <= i < s.len() && s[i].0 == k
}

/// The value of an entry of `s` with key `k`.
pub open spec fn value_of<V>(s: Seq<(Key, V)>, k: Key) -> V {
    s[choose|i: int| 0 <= i < s.len() && s[i].0 == k].1
}

/// The map that `s` describes.
pub open spec fn to_map<V>(s: Seq<(Key, V)>) -> Map<Key, V> {
    Map::new(|k: Key| has_key(s, k), |k: Key| value_of(s, k))
}

/// With unique keys, the entry at `i` gives the map's value at its key.
pub proof fn lemma_entry_in_map<V>(s: Seq<(Key, V)>, i: int)
    requires
        keys_unique(s),
        0 <= i < s.len(),
    ensures
        to_map(s).contains_key(s[i].0),
        to_map(s)[s[i].0] == s[i].1,
{
    let k = s[i].0;
    assert(has_key(s, k));
    let j = choose|j: int| 0 <= j < s.len() && s[j].0 == k;
    assert(j == i);
}

/// Overwriting entry `i` with the same key updates the map at that key.
pub proof fn lemma_update_entry<V>(s: Seq<(Key, V)>, i: int, v: V)
    requires
        keys_unique(s),
        0 <= i < s.len(),
    ensures
        keys_unique(s.update(i, (s[i].0, v))),
        to_map(s.update(i, (s[i].0, v))) == to_map(s).insert(s[i].0, v),
{
    let t = s.update(i, (s[i].0, v));
    assert forall|a: int, b: int| 0 <= a < b < t.len() implies t[a].0 != t[b].0 by {
        assert(t[a].0 == s[a].0 && t[b].0 == s[b].0);
    }
    assert forall|k: Key| #[trigger] has_key(t, k) == has_key(s, k) by {
        if has_key(s, k) {
            let j = choose|j: int| 0 <= j < s.len() && s[j].0 == k;
            assert(t[j].0 == k);
        }
        if has_key(t, k) {
            let j = choose|j: int| 0 <= j < t.len() && t[j].0 == k;
            assert(s[j].0 == k);
        }
    }
    assert forall|k: Key| has_key(t, k) implies #[trigger] value_of(t, k) == to_map(s).insert(
        s[i].0,
        v,
    )[k] by {
        let j = choose|j: int| 0 <= j < t.len() && t[j].0 == k;
        lemma_entry_in_map(t, j);
        if j != i {
            lemma_entry_in_map(s, j);
        }
    }
    assert(to_map(t) =~= to_map(s).insert(s[i].0, v));
}

/// Appending an entry with a new key inserts it into the map.
pub proof fn lemma_push_entry<V>(s: Seq<(Key, V)>, k: Key, v: V)
    requires
        keys_unique(s),
        !has_key(s, k),
    ensures
        keys_unique(s.push((k, v))),
        to_map(s.push((k, v))) == to_map(s).insert(k, v),
{
    let t = s.push((k, v));
    assert forall|a: int, b: int| 0 <= a < b < t.len() implies t[a].0 != t[b].0 by {
        if b == s.len() {
            assert(s[a].0 == t[a].0);
        } else {
            assert(s[a].0 == t[a].0 && s[b].0 == t[b].0);
        }
    }
    assert forall|k2: Key| #[trigger] has_key(t, k2) == (has_key(s, k2) || k2 == k) by {
        if has_key(s, k2) {
            let j = choose|j: int| 0 <= j < s.len() && s[j].0 == k2;
            assert(t[j].0 == k2);
        }
        if k2 == k {
            assert(t[s.len() as int].0 == k2);
        }
        if has_key(t, k2) && k2 != k {
            let j = choose|j: int| 0 <= j < t.len() && t[j].0 == k2;
            assert(j < s.len());
            assert(s[j].0 == k2);
        }
    }
    assert forall|k2: Key| has_key(t, k2) implies #[trigger] value_of(t, k2) == to_map(s).insert(
        k,
        v,
    )[k2] by {
        let j = choose|j: int| 0 <= j < t.len() && t[j].0 == k2;
        lemma_entry_in_map(t, j);
        if j < s.len() {
            lemma_entry_in_map(s, j);
        }
    }
    assert(to_map(t) =~= to_map(s).insert(k, v));
}

/// The position of the entry with key `k`, if there is one.
pub fn find_key<V>(s: &Vec<(Key, V)>, k: &Key) -> (r: Option<usize>)
    ensures
        match r {
            Some(i) => i < s@.len() && s@[i as int].0 == *k,
            None => !has_key(s@, *k),
        },
{
    let mut i: usize = 0;
    while i < s.len()
        invariant
            i <= s@.len(),
            forall|j: int| 0 <= j < i ==> s@[j].0 != *k,
        decreases s@.len() - i,
    {
        if s[i].0 == *k {
            return Some(i);
        }
        i = i + 1;
    }
    None
}

/// Removing entry `i` removes its key from the map.
pub proof fn lemma_remove_entry<V>(s: Seq<(Key, V)>, i: int)
    requires
        keys_unique(s),
        0 <= i < s.len(),
    ensures
        keys_unique(s.remove(i)),
        to_map(s.remove(i)) == to_map(s).remove(s[i].0),
{
    let t = s.remove(i);
    let k = s[i].0;
    assert forall|a: int, b: int| 0 <= a < b < t.len() implies t[a].0 != t[b].0 by {
        let sa = if a < i { a } else { a + 1 };
        let sb = if b < i { b } else { b + 1 };
        assert(t[a] == s[sa] && t[b] == s[sb]);
    }
    assert forall|k2: Key| #[trigger] has_key(t, k2) == (has_key(s, k2) && k2 != k) by {
        if has_key(s, k2) && k2 != k {
            let j = choose|j: int| 0 <= j < s.len() && s[j].0 == k2;
            if j < i {
                assert(t[j].0 == k2);
            } else {
                assert(j != i);
                assert(t[j - 1].0 == k2);
            }
        }
        if has_key(t, k2) {
            let j = choose|j: int| 0 <= j < t.len() && t[j].0 == k2;
            let sj = if j < i { j } else { j + 1 };
            assert(s[sj].0 == k2);
            assert(sj != i);
        }
    }
    assert forall|k2: Key| has_key(t, k2) implies #[trigger] value_of(t, k2) == to_map(s).remove(
        k,
    )[k2] by {
        let j = choose|j: int| 0 <= j < t.len() && t[j].0 == k2;
        let sj = if j < i { j } else { j + 1 };
        assert(t[j] == s[sj]);
        lemma_entry_in_map(t, j);
        lemma_entry_in_map(s, sj);
    }
    assert(to_map(t) =~= to_map(s).remove(k));
}

} // verus!
