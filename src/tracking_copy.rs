//! Tracking copies: overlays over a snapshot that record pending effects.
//!
//! Reads see the pending writes of the same copy; nothing reaches the store
//! until the effects are committed. A fork starts a nested overlay over what
//! its parent shows; merging folds the fork's effects back into the parent.

use crate::effects::{lookup, Effects};
use crate::entries::{has_key, keys_unique, lemma_entry_in_map, lemma_push_entry, to_map};
use crate::key::Key;
use crate::snapshot::{applied_map, applied_value, effects_apply, first_failure, merged_effects, Snapshot};
use crate::store::{GlobalState, StateRoot};
use crate::value::{add_wrapping, apply_spec, apply_transform, compose_spec, lemma_compose_applies_in_turn, lemma_composable, StoredValue, Transform, TransformError};
use vstd::prelude::*;

verus! {

/// An overlay of pending effects over a snapshot.
#[derive(Debug)]
pub struct TrackingCopy {
    /// The snapshot read through.
    pub base: Snapshot,
    /// The pending effects.
    pub effects: Effects,
}

impl View for TrackingCopy {
    type V = Map<Key, StoredValue>;

    /// The records as this copy shows them: the base with the effects applied.
    open spec fn view(&self) -> Map<Key, StoredValue> {
        applied_map(self.base@, self.effects@)
    }
}

impl TrackingCopy {
    /// The base and the effects are well-formed, and every pending transform
    /// applies to the base.
    pub open spec fn wf(&self) -> bool {
        &&& self.base.wf()
        &&& self.effects.wf()
        &&& effects_apply(self.base@, self.effects@)
    }

    /// A copy over `base`, with no pending effects.
    pub fn new(base: Snapshot) -> (r: TrackingCopy)
        requires
            base.wf(),
        ensures
            r.wf(),
            r.base@ == base@,
            r.effects@ == Map::<Key, Transform>::empty(),
            r@ == base@,
    {
        let r = TrackingCopy { base, effects: Effects::new() };
        assert(r@ =~= base@);
        r
    }

    /// A copy over the snapshot at `root` of `store`, or `None` where no
    /// snapshot has that root.
    pub fn checkout(store: &GlobalState, root: StateRoot) -> (r: Option<TrackingCopy>)
        requires
            store.wf(),
        ensures
            match r {
                Some(tc) => {
                    &&& root.0 < store@.len()
                    &&& tc.wf()
                    &&& tc.base@ == store@[root.0 as int]
                    &&& tc.effects@ == Map::<Key, Transform>::empty()
                    &&& tc@ == store@[root.0 as int]
                },
                None => root.0 >= store@.len(),
            },
    {
        match store.checkout(root) {
            Some(snapshot) => Some(TrackingCopy::new(snapshot.copy())),
            None => None,
        }
    }

    /// The record under `k`, as this copy shows it.
    pub fn read(&self, k: &Key) -> (r: Option<StoredValue>)
        requires
            self.wf(),
        ensures
            r == lookup(self@, *k),
            r == applied_value(self.base@, self.effects@, *k),
    {
        let below = self.base.get(k);
        match self.effects.get(k) {
            Some(t) => match apply_transform(t, below) {
                Ok(v) => v,
                Err(_) => {
                    // Every pending transform applies to the base.
                    assert(false);
                    None
                },
            },
            None => below,
        }
    }

    /// Writes `v` under `k`.
    pub fn write(&mut self, k: Key, v: StoredValue)
        requires
            old(self).wf(),
        ensures
            final(self).wf(),
            final(self).base@ == old(self).base@,
            final(self).effects@ == old(self).effects@.insert(k, Transform::Write(v)),
            final(self)@ == old(self)@.insert(k, v),
    {
        self.effects.insert(k, Transform::Write(v));
        assert(self@ =~= old(self)@.insert(k, v));
    }

    /// Removes the record under `k`.
    pub fn prune(&mut self, k: Key)
        requires
            old(self).wf(),
        ensures
            final(self).wf(),
            final(self).base@ == old(self).base@,
            final(self).effects@ == old(self).effects@.insert(k, Transform::Prune),
            final(self)@ == old(self)@.remove(k),
    {
        self.effects.insert(k, Transform::Prune);
        assert(self@ =~= old(self)@.remove(k));
    }

    /// Adds `n` to the number under `k`, wrapping at 2^64. Fails, changing
    /// nothing, where `k` holds no record or one that is not a number.
    pub fn add(&mut self, k: Key, n: u64) -> (r: Result<(), TransformError>)
        requires
            old(self).wf(),
        ensures
            final(self).wf(),
            final(self).base@ == old(self).base@,
            r is Ok <==> apply_spec(Transform::AddUInt64(n), lookup(old(self)@, k)) is Ok,
            r matches Err(e) ==> apply_spec(Transform::AddUInt64(n), lookup(old(self)@, k)) == Err::<
                Option<StoredValue>,
                TransformError,
            >(e),
            match lookup(old(self)@, k) {
                Some(StoredValue::Number(a)) => {
                    &&& final(self)@ == old(self)@.insert(k, StoredValue::Number(add_wrapping(a, n)))
                    &&& final(self).effects@ == old(self).effects@.insert(
                        k,
                        if old(self).effects@.contains_key(k) {
                            compose_spec(old(self).effects@[k], Transform::AddUInt64(n))->0
                        } else {
                            Transform::AddUInt64(n)
                        },
                    )
                },
                _ => final(self)@ == old(self)@ && final(self).effects@ == old(self).effects@,
            },
    {
        match self.read(&k) {
            Some(StoredValue::Number(a)) => {
                let ghost below = lookup(self.base@, k);
                proof {
                    if self.effects@.contains_key(k) {
                        let t0 = self.effects@[k];
                        assert(apply_spec(t0, below) is Ok);
                        lemma_composable(t0, Transform::AddUInt64(n), below);
                        lemma_compose_applies_in_turn(t0, Transform::AddUInt64(n), below);
                    }
                }
                let ok = self.effects.add_transform(k, Transform::AddUInt64(n));
                assert(ok);
                proof {
                    assert forall|k2: Key| #[trigger] self.effects@.contains_key(k2) implies apply_spec(
                        self.effects@[k2],
                        lookup(self.base@, k2),
                    ) is Ok by {
                        if k2 != k {
                            assert(old(self).effects@.contains_key(k2));
                        }
                    }
                    assert(self@ =~= old(self)@.insert(k, StoredValue::Number(add_wrapping(a, n))));
                }
                Ok(())
            },
            Some(StoredValue::Record(_)) => Err(TransformError::TypeMismatch),
            None => Err(TransformError::KeyNotFound),
        }
    }

    /// A snapshot of the records as this copy shows them.
    pub fn materialize(&self) -> (r: Snapshot)
        requires
            self.wf(),
        ensures
            r.wf(),
            r@ == self@,
    {
        match self.base.applied(&self.effects) {
            Ok(s) => s,
            Err(_) => {
                // Every pending transform applies to the base.
                assert(false);
                Snapshot::new()
            },
        }
    }

    /// A nested copy over what this copy shows, with no pending effects.
    pub fn fork(&self) -> (r: TrackingCopy)
        requires
            self.wf(),
        ensures
            r.wf(),
            r@ == self@,
            r.base@ == self@,
            r.effects@ == Map::<Key, Transform>::empty(),
    {
        TrackingCopy::new(self.materialize())
    }

    /// Folds `child` effects, made over what this copy shows, into this copy:
    /// each transform is composed after the pending one on its key. Fails,
    /// changing nothing, where a transform does not apply; the first such, in
    /// the order of `child`, is reported.
    pub fn merge(&mut self, child: &Effects) -> (r: Result<(), (Key, TransformError)>)
        requires
            old(self).wf(),
            child.wf(),
        ensures
            final(self).wf(),
            final(self).base@ == old(self).base@,
            r is Ok <==> effects_apply(old(self)@, child@),
            match r {
                Ok(()) => {
                    &&& final(self)@ == applied_map(old(self)@, child@)
                    &&& final(self).effects@ == merged_effects(old(self).effects@, child@)
                },
                Err((k, err)) => {
                    &&& exists|i: int| first_failure(old(self)@, child.entries@, i, err) && child.entries@[i].0 == k
                    &&& *final(self) == *old(self)
                },
            },
    {
        let ghost es = child.entries@;
        let ghost start = self@;
        let mut i: usize = 0;
        while i < child.entries.len()
            invariant
                self.wf(),
                *self == *old(self),
                self@ == start,
                child.wf(),
                es == child.entries@,
                i <= es.len(),
                forall|j: int| 0 <= j < i ==> (#[trigger] apply_spec(es[j].1, lookup(start, es[j].0))) is Ok,
            decreases es.len() - i,
        {
            let (k, t) = child.entries[i];
            match apply_transform(t, self.read(&k)) {
                Ok(_) => {},
                Err(err) => {
                    assert(first_failure(start, es, i as int, err));
                    proof {
                        lemma_entry_in_map(es, i as int);
                    }
                    return Err((k, err));
                },
            }
            i = i + 1;
        }
        proof {
            assert forall|k: Key| #[trigger] child@.contains_key(k) implies apply_spec(child@[k], lookup(start, k)) is Ok by {
                let j = choose|j: int| 0 <= j < es.len() && es[j].0 == k;
                lemma_entry_in_map(es, j);
                assert(apply_spec(es[j].1, lookup(start, es[j].0)) is Ok);
            }
        }
        let mut i: usize = 0;
        while i < child.entries.len()
            invariant
                self.wf(),
                self.base@ == old(self).base@,
                child.wf(),
                es == child.entries@,
                i <= es.len(),
                effects_apply(start, child@),
                keys_unique(es.subrange(0, i as int)),
                self.effects@ == merged_effects(old(self).effects@, to_map(es.subrange(0, i as int))),
                forall|k: Key| #[trigger] lookup(self@, k) == applied_value(start, to_map(es.subrange(0, i as int)), k),
            decreases es.len() - i,
        {
            let (k, t) = child.entries[i];
            let ghost before = self@;
            let ghost sub = es.subrange(0, i as int);
            proof {
                assert(!has_key(sub, k)) by {
                    if has_key(sub, k) {
                        let j = choose|j: int| 0 <= j < sub.len() && sub[j].0 == k;
                        assert(es[j].0 == es[i as int].0);
                    }
                }
                assert(lookup(before, k) == lookup(start, k));
                lemma_entry_in_map(es, i as int);
                assert(apply_spec(t, lookup(start, k)) is Ok);
            }
            match t {
                Transform::Write(v) => self.write(k, v),
                Transform::Prune => self.prune(k),
                Transform::AddUInt64(n) => {
                    let _ = self.add(k, n);
                },
            }
            proof {
                lemma_push_entry(sub, k, t);
                assert(es.subrange(0, i + 1) =~= sub.push((k, t)));
                assert(self.effects@ =~= merged_effects(old(self).effects@, to_map(es.subrange(0, i + 1))));
                assert forall|k2: Key| #[trigger] lookup(self@, k2) == applied_value(start, to_map(es.subrange(0, i + 1)), k2) by {
                    if k2 != k {
                        assert(lookup(before, k2) == applied_value(start, to_map(sub), k2));
                    }
                }
            }
            i = i + 1;
        }
        proof {
            assert(es.subrange(0, es.len() as int) =~= es);
            assert forall|k: Key| self@.contains_key(k) == applied_map(start, child@).contains_key(k) by {
                assert(lookup(self@, k) == applied_value(start, child@, k));
            }
            assert forall|k: Key| self@.contains_key(k) implies self@[k] == applied_map(start, child@)[k] by {
                assert(lookup(self@, k) == applied_value(start, child@, k));
            }
            assert(self@ =~= applied_map(start, child@));
            assert(self.effects@ =~= merged_effects(old(self).effects@, child@));
        }
        Ok(())
    }
}

} // verus!
