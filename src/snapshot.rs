//! The records of global state at one root.

use crate::effects::{lookup, Effects};
use crate::entries::{find_key, has_key, keys_unique, lemma_entry_in_map, lemma_push_entry, lemma_remove_entry, lemma_update_entry, to_map};
use crate::key::Key;
use crate::value::{
    apply_spec, apply_transform, compose_spec, lemma_compose_applies_in_turn, lemma_composable,
    StoredValue, Transform, TransformError,
};
use vstd::prelude::*;

verus! {

/// What key `k` holds once `e` is applied to `m`.
pub open spec fn applied_value(m: Map<Key, StoredValue>, e: Map<Key, Transform>, k: Key) -> Option<
    StoredValue,
> {
    if e.contains_key(k) {
        apply_spec(e[k], lookup(m, k))->Ok_0
    } else {
        lookup(m, k)
    }
}

/// Every transform of `e` applies to what `m` holds at its key.
pub open spec fn effects_apply(m: Map<Key, StoredValue>, e: Map<Key, Transform>) -> bool {
    forall|k: Key| #[trigger] e.contains_key(k) ==> apply_spec(e[k], lookup(m, k)) is Ok
}

/// The records after `e` is applied to `m`.
pub open spec fn applied_map(m: Map<Key, StoredValue>, e: Map<Key, Transform>) -> Map<
    Key,
    StoredValue,
> {
    Map::new(|k: Key| applied_value(m, e, k) is Some, |k: Key| applied_value(m, e, k)->0)
}

/// The error of applying the `i`-th entry of `entries` to `m`, where it fails
/// and every earlier entry applies.
pub open spec fn first_failure(
    m: Map<Key, StoredValue>,
    entries: Seq<(Key, Transform)>,
    i: int,
    err: TransformError,
) -> bool {
    &&& 0 <= i < entries.len()
    &&& apply_spec(entries[i].1, lookup(m, entries[i].0)) == Err::<Option<StoredValue>, TransformError>(err)
    &&& forall|j: int| 0 <= j < i ==> (#[trigger] apply_spec(entries[j].1, lookup(m, entries[j].0))) is Ok
}

/// The effect set that does what `a` and then `b` do: on a key that both
/// touch, the composition of the two transforms.
pub open spec fn merged_effects(a: Map<Key, Transform>, b: Map<Key, Transform>) -> Map<
    Key,
    Transform,
> {
    Map::new(
        |k: Key| a.contains_key(k) || b.contains_key(k),
        |k: Key|
            if a.contains_key(k) && b.contains_key(k) {
                compose_spec(a[k], b[k])->0
            } else if b.contains_key(k) {
                b[k]
            } else {
                a[k]
            },
    )
}

/// Applying `a` and then `b` gives the same records as applying them merged
/// into one effect set, which then applies as a whole.
pub proof fn lemma_apply_merged(m: Map<Key, StoredValue>, a: Map<Key, Transform>, b: Map<Key, Transform>)
    requires
        effects_apply(m, a),
        effects_apply(applied_map(m, a), b),
    ensures
        forall|k: Key|
            a.contains_key(k) && b.contains_key(k) ==> (#[trigger] compose_spec(a[k], b[k])) is Some,
        effects_apply(m, merged_effects(a, b)),
        applied_map(applied_map(m, a), b) == applied_map(m, merged_effects(a, b)),
{
    let ma = applied_map(m, a);
    let e = merged_effects(a, b);
    assert forall|k: Key| #[trigger] lookup(ma, k) == applied_value(m, a, k) by {}
    assert forall|k: Key| a.contains_key(k) && b.contains_key(k) implies (#[trigger] compose_spec(
        a[k],
        b[k],
    )) is Some by {
        assert(apply_spec(a[k], lookup(m, k)) is Ok);
        assert(apply_spec(b[k], lookup(ma, k)) is Ok);
        lemma_composable(a[k], b[k], lookup(m, k));
    }
    assert forall|k: Key| #[trigger] e.contains_key(k) implies apply_spec(e[k], lookup(m, k)) is Ok
        && apply_spec(e[k], lookup(m, k))->Ok_0 == applied_value(ma, b, k) by {
        if a.contains_key(k) && b.contains_key(k) {
            assert(apply_spec(a[k], lookup(m, k)) is Ok);
            assert(apply_spec(b[k], lookup(ma, k)) is Ok);
            lemma_composable(a[k], b[k], lookup(m, k));
            lemma_compose_applies_in_turn(a[k], b[k], lookup(m, k));
        } else if b.contains_key(k) {
            assert(apply_spec(b[k], lookup(ma, k)) is Ok);
        } else {
            assert(apply_spec(a[k], lookup(m, k)) is Ok);
        }
    }
    assert forall|k: Key| #[trigger] applied_value(ma, b, k) == applied_value(m, e, k) by {
        if !e.contains_key(k) {
            assert(!a.contains_key(k) && !b.contains_key(k));
        }
    }
    assert(applied_map(ma, b) =~= applied_map(m, e));
}

/// The records of global state at one root, one value per key.
#[derive(Debug)]
pub struct Snapshot {
    /// The records, at most one per key.
    pub entries: Vec<(Key, StoredValue)>,
}

impl View for Snapshot {
    type V = Map<Key, StoredValue>;

    open spec fn view(&self) -> Map<Key, StoredValue> {
        to_map(self.entries@)
    }
}

impl Snapshot {
    /// Each key has at most one record.
    pub open spec fn wf(&self) -> bool {
        keys_unique(self.entries@)
    }

    /// Whether each key has at most one record.
    pub fn has_unique_keys(&self) -> (r: bool)
        ensures
            r == self.wf(),
    {
        let n = self.entries.len();
        let mut i: usize = 0;
        while i < n
            invariant
                n == self.entries@.len(),
                i <= n,
                forall|a: int, b: int| 0 <= a < b < n && a < i ==> self.entries@[a].0 != self.entries@[b].0,
            decreases n - i,
        {
            let mut j: usize = i + 1;
            while j < n
                invariant
                    n == self.entries@.len(),
                    i < n,
                    i + 1 <= j <= n,
                    forall|a: int, b: int| 0 <= a < b < n && a < i ==> self.entries@[a].0 != self.entries@[b].0,
                    forall|b: int| i < b < j ==> self.entries@[i as int].0 != self.entries@[b].0,
                decreases n - j,
            {
                if self.entries[i].0 == self.entries[j].0 {
                    return false;
                }
                j = j + 1;
            }
            i = i + 1;
        }
        true
    }

    /// A snapshot without records.
    pub fn new() -> (r: Snapshot)
        ensures
            r.wf(),
            r@ == Map::<Key, StoredValue>::empty(),
    {
        let r = Snapshot { entries: Vec::new() };
        assert(r@ =~= Map::<Key, StoredValue>::empty());
        r
    }

    /// The record under `k`, if any.
    pub fn get(&self, k: &Key) -> (r: Option<StoredValue>)
        requires
            self.wf(),
        ensures
            r == lookup(self@, *k),
    {
        match find_key(&self.entries, k) {
            Some(i) => {
                proof {
                    lemma_entry_in_map(self.entries@, i as int);
                }
                Some(self.entries[i].1)
            },
            None => None,
        }
    }

    /// Stores `v` under `k`, or removes the record where `v` is `None`.
    pub fn put(&mut self, k: Key, v: Option<StoredValue>)
        requires
            old(self).wf(),
        ensures
            final(self).wf(),
            final(self)@ == match v {
                Some(v) => old(self)@.insert(k, v),
                None => old(self)@.remove(k),
            },
    {
        match (find_key(&self.entries, &k), v) {
            (Some(i), Some(v)) => {
                proof {
                    lemma_update_entry(self.entries@, i as int, v);
                }
                self.entries.set(i, (k, v));
            },
            (Some(i), None) => {
                proof {
                    lemma_remove_entry(self.entries@, i as int);
                }
                self.entries.remove(i);
            },
            (None, Some(v)) => {
                proof {
                    lemma_push_entry(self.entries@, k, v);
                }
                self.entries.push((k, v));
            },
            (None, None) => {
                assert(self@ =~= self@.remove(k));
            },
        }
    }

    /// A snapshot with the same records.
    pub fn copy(&self) -> (r: Snapshot)
        requires
            self.wf(),
        ensures
            r.wf(),
            r@ == self@,
            r.entries@ == self.entries@,
    {
        let mut entries: Vec<(Key, StoredValue)> = Vec::new();
        let mut i: usize = 0;
        while i < self.entries.len()
            invariant
                i <= self.entries@.len(),
                entries@ == self.entries@.subrange(0, i as int),
            decreases self.entries@.len() - i,
        {
            entries.push(self.entries[i]);
            i = i + 1;
            assert(entries@ =~= self.entries@.subrange(0, i as int));
        }
        assert(entries@ =~= self.entries@);
        Snapshot { entries }
    }

    /// Whether every record of `self` is in `other`, under the same key.
    fn is_included_in(&self, other: &Snapshot) -> (r: bool)
        requires
            self.wf(),
            other.wf(),
        ensures
            r == (forall|k: Key| #[trigger] self@.contains_key(k) ==> other@.contains_key(k) && other@[k] == self@[k]),
    {
        let mut i: usize = 0;
        while i < self.entries.len()
            invariant
                self.wf(),
                other.wf(),
                i <= self.entries@.len(),
                forall|j: int| 0 <= j < i ==> #[trigger] lookup(other@, self.entries@[j].0) == Some(self.entries@[j].1),
            decreases self.entries@.len() - i,
        {
            let (k, v) = self.entries[i];
            proof {
                lemma_entry_in_map(self.entries@, i as int);
            }
            match other.get(&k) {
                Some(w) => {
                    if w != v {
                        assert(self@.contains_key(k) && other@[k] != self@[k]);
                        return false;
                    }
                },
                None => {
                    assert(self@.contains_key(k) && !other@.contains_key(k));
                    return false;
                },
            }
            i = i + 1;
        }
        assert forall|k: Key| #[trigger] self@.contains_key(k) implies other@.contains_key(k) && other@[k] == self@[k] by {
            let j = choose|j: int| 0 <= j < self.entries@.len() && self.entries@[j].0 == k;
            lemma_entry_in_map(self.entries@, j);
            assert(lookup(other@, self.entries@[j].0) == Some(self.entries@[j].1));
        }
        true
    }

    /// Whether the two snapshots hold the same records.
    pub fn same_contents(&self, other: &Snapshot) -> (r: bool)
        requires
            self.wf(),
            other.wf(),
        ensures
            r == (self@ == other@),
    {
        let a = self.is_included_in(other);
        let b = other.is_included_in(self);
        if a && b {
            assert(self@ =~= other@);
        }
        a && b
    }

    /// The snapshot that results from applying `effects`, or the first entry
    /// of `effects`, in order, that does not apply.
    pub fn applied(&self, effects: &Effects) -> (r: Result<Snapshot, (Key, TransformError)>)
        requires
            self.wf(),
            effects.wf(),
        ensures
            r is Ok <==> effects_apply(self@, effects@),
            match r {
                Ok(s) => s.wf() && s@ == applied_map(self@, effects@),
                Err((k, err)) => exists|i: int|
                    first_failure(self@, effects.entries@, i, err) && effects.entries@[i].0 == k,
            },
    {
        let mut out = self.copy();
        let mut i: usize = 0;
        let ghost es = effects.entries@;
        while i < effects.entries.len()
            invariant
                self.wf(),
                effects.wf(),
                es == effects.entries@,
                out.wf(),
                i <= es.len(),
                keys_unique(es.subrange(0, i as int)),
                forall|j: int| 0 <= j < i ==> (#[trigger] apply_spec(es[j].1, lookup(self@, es[j].0))) is Ok,
                forall|k: Key|
                    #[trigger] lookup(out@, k) == applied_value(self@, to_map(es.subrange(0, i as int)), k),
            decreases es.len() - i,
        {
            let (k, t) = effects.entries[i];
            let current = self.get(&k);
            match apply_transform(t, current) {
                Ok(next) => {
                    let ghost before = out@;
                    out.put(k, next);
                    proof {
                        let sub = es.subrange(0, i as int);
                        assert(!has_key(sub, k)) by {
                            if has_key(sub, k) {
                                let j = choose|j: int| 0 <= j < sub.len() && sub[j].0 == k;
                                assert(es[j].0 == es[i as int].0);
                            }
                        }
                        lemma_push_entry(sub, k, t);
                        assert(es.subrange(0, i + 1) =~= sub.push((k, t)));
                        assert forall|k2: Key|
                            #[trigger] lookup(out@, k2) == applied_value(self@, to_map(es.subrange(0, i + 1)), k2) by {
                            if k2 != k {
                                assert(lookup(before, k2) == applied_value(self@, to_map(sub), k2));
                            }
                        }
                    }
                },
                Err(err) => {
                    assert(first_failure(self@, es, i as int, err));
                    proof {
                        assert(effects@.contains_key(k)) by {
                            lemma_entry_in_map(es, i as int);
                        }
                        lemma_entry_in_map(es, i as int);
                        assert(!effects_apply(self@, effects@));
                    }
                    return Err((k, err));
                },
            }
            i = i + 1;
        }
        proof {
            assert(es.subrange(0, es.len() as int) =~= es);
            assert forall|k: Key| #[trigger] effects@.contains_key(k) implies apply_spec(effects@[k], lookup(self@, k)) is Ok by {
                let j = choose|j: int| 0 <= j < es.len() && es[j].0 == k;
                lemma_entry_in_map(es, j);
                assert(apply_spec(es[j].1, lookup(self@, es[j].0)) is Ok);
            }
            assert forall|k: Key| out@.contains_key(k) == applied_map(self@, effects@).contains_key(k) by {
                assert(lookup(out@, k) == applied_value(self@, effects@, k));
            }
            assert forall|k: Key| out@.contains_key(k) implies out@[k] == applied_map(self@, effects@)[k] by {
                assert(lookup(out@, k) == applied_value(self@, effects@, k));
            }
            assert(out@ =~= applied_map(self@, effects@));
        }
        Ok(out)
    }
}

} // verus!
