//! The global state store: immutable snapshots addressed by their root, with
//! commits that derive a new snapshot from an old one.
//!
//! A root is determined by the records it holds: a commit whose outcome equals
//! a snapshot already stored returns that snapshot's root, so committing the
//! same effects on the same root twice gives the same root, and committing
//! nothing gives back the root it started from.

use crate::effects::{lookup, Effects};
use crate::key::Key;
use crate::snapshot::{applied_map, effects_apply, first_failure, lemma_apply_merged, merged_effects, Snapshot};
use crate::value::{apply_spec, StoredValue, Transform, TransformError};
use vstd::prelude::*;

verus! {

/// Identifies one immutable snapshot of global state.
#[derive(Clone, Copy, Debug, PartialEq, Eq, Structural, Hash)]
pub struct StateRoot(pub u64);

/// A failure of the global state store.
#[derive(Clone, Copy, Debug, PartialEq, Eq, Structural)]
pub enum GlobalStateError {
    /// No snapshot has this root.
    RootNotFound(StateRoot),
    /// A transform of the effects does not apply to what its key holds.
    Transform { key: Key, error: TransformError },
}

/// The outcome of a purge.
#[derive(Clone, Copy, Debug, PartialEq, Eq, Structural)]
pub enum PurgeResult {
    /// No snapshot has the root to purge from.
    RootNotFound,
    /// A key to purge holds nothing at that root; nothing was purged.
    DoesNotExist,
    /// The keys were removed; the snapshot without them has this root.
    Success { post_state_hash: StateRoot },
}

/// No two snapshots hold the same records.
pub open spec fn states_distinct(states: Seq<Map<Key, StoredValue>>) -> bool {
    forall|i: int, j: int| 0 <= i < j < states.len() ==> states[i] != states[j]
}

/// The root that records `m` get among `states`: that of the snapshot equal
/// to `m`, or the next free one.
pub open spec fn root_of(states: Seq<Map<Key, StoredValue>>, m: Map<Key, StoredValue>) -> int {
    if exists|i: int| 0 <= i < states.len() && states[i] == m {
        choose|i: int| 0 <= i < states.len() && states[i] == m
    } else {
        states.len() as int
    }
}

/// The snapshots once `m` is stored among `states`.
pub open spec fn with_state(states: Seq<Map<Key, StoredValue>>, m: Map<Key, StoredValue>) -> Seq<
    Map<Key, StoredValue>,
> {
    if root_of(states, m) < states.len() {
        states
    } else {
        states.push(m)
    }
}

/// The records of `m` without those under `keys`.
pub open spec fn pruned_map(m: Map<Key, StoredValue>, keys: Seq<Key>) -> Map<Key, StoredValue> {
    Map::new(|k: Key| m.contains_key(k) && !keys.contains(k), |k: Key| m[k])
}

/// In distinct snapshots, the root of a stored snapshot is its position.
pub proof fn lemma_root_of_stored(states: Seq<Map<Key, StoredValue>>, i: int)
    requires
        states_distinct(states),
        0 <= i < states.len(),
    ensures
        root_of(states, states[i]) == i,
        with_state(states, states[i]) == states,
{
    let j = choose|j: int| 0 <= j < states.len() && states[j] == states[i];
    if j < i {
        assert(states[j] != states[i]);
    } else if i < j {
        assert(states[i] != states[j]);
    }
}

/// Storing `m` keeps the snapshots distinct, and the snapshot at `m`'s root
/// holds `m`.
pub proof fn lemma_with_state(states: Seq<Map<Key, StoredValue>>, m: Map<Key, StoredValue>)
    requires
        states_distinct(states),
    ensures
        states_distinct(with_state(states, m)),
        0 <= root_of(states, m) < with_state(states, m).len(),
        with_state(states, m)[root_of(states, m)] == m,
        with_state(states, m).len() >= states.len(),
        forall|i: int| 0 <= i < states.len() ==> with_state(states, m)[i] == states[i],
{
    if !(exists|i: int| 0 <= i < states.len() && states[i] == m) {
        let t = states.push(m);
        assert forall|i: int, j: int| 0 <= i < j < t.len() implies t[i] != t[j] by {
            if j == states.len() {
                assert(states[i] != m);
            } else {
                assert(states[i] != states[j]);
            }
        }
    }
}

/// Committing effects and reading a key that they touch gives what the key's
/// transform makes of the record it had: a written value, nothing after a
/// prune, the wrapped sum after an addition. Committing no effects gives back
/// the root committed on, with the store unchanged.
pub proof fn lemma_commit_then_read(
    states: Seq<Map<Key, StoredValue>>,
    root: int,
    e: Map<Key, Transform>,
    k: Key,
)
    requires
        states_distinct(states),
        0 <= root < states.len(),
        effects_apply(states[root], e),
        e.contains_key(k),
    ensures
        lookup(
            with_state(states, applied_map(states[root], e))[root_of(states, applied_map(states[root], e))],
            k,
        ) == apply_spec(e[k], lookup(states[root], k))->Ok_0,
        e[k] matches Transform::Write(v) ==> lookup(
            with_state(states, applied_map(states[root], e))[root_of(states, applied_map(states[root], e))],
            k,
        ) == Some(v),
        e[k] is Prune ==> lookup(
            with_state(states, applied_map(states[root], e))[root_of(states, applied_map(states[root], e))],
            k,
        ) is None,
{
    let m = applied_map(states[root], e);
    lemma_with_state(states, m);
    assert(apply_spec(e[k], lookup(states[root], k)) is Ok);
}

/// Committing an empty effect set gives back the root it was committed on and
/// leaves the snapshots as they were.
pub proof fn lemma_empty_commit_keeps_root(states: Seq<Map<Key, StoredValue>>, root: int)
    requires
        states_distinct(states),
        0 <= root < states.len(),
    ensures
        effects_apply(states[root], Map::<Key, Transform>::empty()),
        root_of(states, applied_map(states[root], Map::<Key, Transform>::empty())) == root,
        with_state(states, applied_map(states[root], Map::<Key, Transform>::empty())) == states,
{
    let m = applied_map(states[root], Map::<Key, Transform>::empty());
    assert(m =~= states[root]);
    lemma_root_of_stored(states, root);
}

/// Committing the same effects on the same root a second time gives the same
/// root and leaves the snapshots as the first commit left them.
pub proof fn lemma_commit_idempotent(
    states: Seq<Map<Key, StoredValue>>,
    root: int,
    e: Map<Key, Transform>,
)
    requires
        states_distinct(states),
        0 <= root < states.len(),
    ensures
        ({
            let m = applied_map(states[root], e);
            let after = with_state(states, m);
            &&& after[root] == states[root]
            &&& root_of(after, applied_map(after[root], e)) == root_of(states, m)
            &&& with_state(after, applied_map(after[root], e)) == after
        }),
{
    let m = applied_map(states[root], e);
    lemma_with_state(states, m);
    lemma_root_of_stored(with_state(states, m), root_of(states, m));
}

/// Committing `a` and then `b` reaches the records that committing the two
/// merged into one effect set on the same root reaches, and so, within one
/// store, the same root.
pub proof fn lemma_commit_merged(
    states: Seq<Map<Key, StoredValue>>,
    root: int,
    a: Map<Key, Transform>,
    b: Map<Key, Transform>,
)
    requires
        states_distinct(states),
        0 <= root < states.len(),
        effects_apply(states[root], a),
        effects_apply(applied_map(states[root], a), b),
    ensures
        ({
            let first = with_state(states, applied_map(states[root], a));
            let r1 = root_of(states, applied_map(states[root], a));
            &&& effects_apply(states[root], merged_effects(a, b))
            &&& root_of(first, applied_map(first[r1], b)) == root_of(
                first,
                applied_map(states[root], merged_effects(a, b)),
            )
            &&& applied_map(first[r1], b) == applied_map(states[root], merged_effects(a, b))
        }),
{
    let m = applied_map(states[root], a);
    lemma_with_state(states, m);
    lemma_apply_merged(states[root], a, b);
}

/// The global state store.
#[derive(Debug)]
pub struct GlobalState {
    /// The snapshots, each at the position that its root names.
    pub snapshots: Vec<Snapshot>,
    /// How many times effects were committed.
    pub effect_commits: u64,
}

impl View for GlobalState {
    type V = Seq<Map<Key, StoredValue>>;

    open spec fn view(&self) -> Seq<Map<Key, StoredValue>> {
        self.snapshots@.map_values(|s: Snapshot| s@)
    }
}

impl GlobalState {
    /// The store's invariant: an empty snapshot at root 0, well-formed and
    /// pairwise distinct snapshots.
    pub open spec fn wf(&self) -> bool {
        &&& self.snapshots@.len() >= 1
        &&& self@[0] == Map::<Key, StoredValue>::empty()
        &&& forall|i: int| 0 <= i < self.snapshots@.len() ==> (#[trigger] self.snapshots@[i]).wf()
        &&& states_distinct(self@)
    }

    /// A store with the empty snapshot alone.
    pub fn new() -> (r: GlobalState)
        ensures
            r.wf(),
            r@ == seq![Map::<Key, StoredValue>::empty()],
            r.effect_commits == 0,
    {
        let mut snapshots: Vec<Snapshot> = Vec::new();
        snapshots.push(Snapshot::new());
        let r = GlobalState { snapshots, effect_commits: 0 };
        assert(r@ =~= seq![Map::<Key, StoredValue>::empty()]);
        r
    }

    /// Whether the store's invariant holds.
    pub fn is_well_formed(&self) -> (r: bool)
        ensures
            r == self.wf(),
    {
        let n = self.snapshots.len();
        if n == 0 {
            return false;
        }
        let mut i: usize = 0;
        while i < n
            invariant
                n == self.snapshots@.len(),
                i <= n,
                forall|a: int| 0 <= a < i ==> (#[trigger] self.snapshots@[a]).wf(),
            decreases n - i,
        {
            if !self.snapshots[i].has_unique_keys() {
                return false;
            }
            i = i + 1;
        }
        if self.snapshots[0].entries.len() != 0 {
            proof {
                crate::entries::lemma_entry_in_map(self.snapshots@[0].entries@, 0);
                assert(self@[0].contains_key(self.snapshots@[0].entries@[0].0));
            }
            return false;
        }
        assert(self@[0] =~= Map::<Key, StoredValue>::empty());
        let mut a: usize = 0;
        while a < n
            invariant
                n == self.snapshots@.len(),
                a <= n,
                forall|x: int| 0 <= x < n ==> (#[trigger] self.snapshots@[x]).wf(),
                forall|x: int, y: int| 0 <= x < y < n && x < a ==> self@[x] != self@[y],
            decreases n - a,
        {
            let mut b: usize = a + 1;
            while b < n
                invariant
                    n == self.snapshots@.len(),
                    a < n,
                    a + 1 <= b <= n,
                    forall|x: int| 0 <= x < n ==> (#[trigger] self.snapshots@[x]).wf(),
                    forall|x: int, y: int| 0 <= x < y < n && x < a ==> self@[x] != self@[y],
                    forall|y: int| a < y < b ==> self@[a as int] != self@[y],
                decreases n - b,
            {
                if self.snapshots[a].same_contents(&self.snapshots[b]) {
                    assert(self@[a as int] == self@[b as int]);
                    return false;
                }
                b = b + 1;
            }
            a = a + 1;
        }
        true
    }

    /// The root of the empty snapshot.
    pub fn empty_root(&self) -> (r: StateRoot)
        requires
            self.wf(),
        ensures
            r.0 == 0,
            self@[r.0 as int] == Map::<Key, StoredValue>::empty(),
    {
        StateRoot(0)
    }

    /// The snapshot at `root`, or `None` where no snapshot has that root.
    pub fn checkout(&self, root: StateRoot) -> (r: Option<&Snapshot>)
        requires
            self.wf(),
        ensures
            match r {
                Some(s) => root.0 < self@.len() && s.wf() && s@ == self@[root.0 as int],
                None => root.0 >= self@.len(),
            },
    {
        if root.0 < self.snapshots.len() as u64 {
            Some(&self.snapshots[root.0 as usize])
        } else {
            None
        }
    }

    /// The record under `key` at `root`.
    pub fn read(&self, root: StateRoot, key: &Key) -> (r: Result<Option<StoredValue>, GlobalStateError>)
        requires
            self.wf(),
        ensures
            root.0 < self@.len() ==> r == Ok::<Option<StoredValue>, GlobalStateError>(
                lookup(self@[root.0 as int], *key),
            ),
            root.0 >= self@.len() ==> r == Err::<Option<StoredValue>, GlobalStateError>(
                GlobalStateError::RootNotFound(root),
            ),
    {
        match self.checkout(root) {
            Some(snapshot) => Ok(snapshot.get(key)),
            None => Err(GlobalStateError::RootNotFound(root)),
        }
    }

    /// Stores a snapshot, reusing the root of an equal one.
    fn store(&mut self, s: Snapshot) -> (r: StateRoot)
        requires
            old(self).wf(),
            s.wf(),
        ensures
            final(self).wf(),
            r.0 == root_of(old(self)@, s@),
            final(self)@ == with_state(old(self)@, s@),
            final(self).effect_commits == old(self).effect_commits,
    {
        let mut i: usize = 0;
        while i < self.snapshots.len()
            invariant
                self.wf(),
                i <= self.snapshots@.len(),
                s.wf(),
                forall|j: int| 0 <= j < i ==> self@[j] != s@,
            decreases self.snapshots@.len() - i,
        {
            if self.snapshots[i].same_contents(&s) {
                proof {
                    lemma_root_of_stored(self@, i as int);
                }
                return StateRoot(i as u64);
            }
            i = i + 1;
        }
        let ghost before = self@;
        proof {
            lemma_with_state(before, s@);
        }
        let n = self.snapshots.len();
        self.snapshots.push(s);
        assert(self@ =~= before.push(s@));
        StateRoot(n as u64)
    }

    /// Applies `effects` to the snapshot at `root` and stores the outcome,
    /// returning its root. Fails, changing no snapshot, where `root` is
    /// unknown or a transform does not apply; the first such transform, in
    /// the order of the effects, is reported. Every call is counted.
    pub fn commit_effects(&mut self, root: StateRoot, effects: &Effects) -> (r: Result<
        StateRoot,
        GlobalStateError,
    >)
        requires
            old(self).wf(),
            effects.wf(),
        ensures
            final(self).wf(),
            final(self).effect_commits == if old(self).effect_commits < u64::MAX {
                old(self).effect_commits + 1
            } else {
                old(self).effect_commits as int
            },
            root.0 >= old(self)@.len() ==> r == Err::<StateRoot, GlobalStateError>(
                GlobalStateError::RootNotFound(root),
            ),
            root.0 < old(self)@.len() ==> (r is Ok <==> effects_apply(old(self)@[root.0 as int], effects@)),
            match r {
                Ok(new_root) => {
                    &&& new_root.0 == root_of(old(self)@, applied_map(old(self)@[root.0 as int], effects@))
                    &&& final(self)@ == with_state(old(self)@, applied_map(old(self)@[root.0 as int], effects@))
                },
                Err(GlobalStateError::Transform { key, error }) => {
                    &&& root.0 < old(self)@.len()
                    &&& exists|i: int|
                        first_failure(old(self)@[root.0 as int], effects.entries@, i, error)
                            && effects.entries@[i].0 == key
                    &&& final(self)@ == old(self)@
                },
                Err(GlobalStateError::RootNotFound(_)) => final(self)@ == old(self)@,
            },
    {
        self.effect_commits = self.effect_commits.saturating_add(1);
        let outcome = match self.checkout(root) {
            Some(snapshot) => snapshot.applied(effects),
            None => return Err(GlobalStateError::RootNotFound(root)),
        };
        match outcome {
            Ok(next) => Ok(self.store(next)),
            Err((key, error)) => Err(GlobalStateError::Transform { key, error }),
        }
    }

    /// Removes `keys` from the snapshot at `root` and stores the outcome. Where
    /// the root is unknown, or a key holds nothing there, nothing changes.
    pub fn purge(&mut self, root: StateRoot, keys: &Vec<Key>) -> (r: PurgeResult)
        requires
            old(self).wf(),
        ensures
            final(self).wf(),
            final(self).effect_commits == old(self).effect_commits,
            r is RootNotFound <==> root.0 >= old(self)@.len(),
            root.0 < old(self)@.len() ==> (r is DoesNotExist <==> exists|i: int|
                0 <= i < keys@.len() && !old(self)@[root.0 as int].contains_key(#[trigger] keys@[i])),
            match r {
                PurgeResult::Success { post_state_hash } => {
                    &&& root.0 < old(self)@.len()
                    &&& post_state_hash.0 == root_of(old(self)@, pruned_map(old(self)@[root.0 as int], keys@))
                    &&& final(self)@ == with_state(old(self)@, pruned_map(old(self)@[root.0 as int], keys@))
                },
                _ => final(self)@ == old(self)@,
            },
    {
        let snapshot = match self.checkout(root) {
            Some(snapshot) => snapshot,
            None => return PurgeResult::RootNotFound,
        };
        let mut out = snapshot.copy();
        let ghost m = self@[root.0 as int];
        let mut i: usize = 0;
        while i < keys.len()
            invariant
                self.wf(),
                self@ == old(self)@,
                self.effect_commits == old(self).effect_commits,
                root.0 < self@.len(),
                m == self@[root.0 as int],
                snapshot.wf(),
                snapshot@ == m,
                out.wf(),
                i <= keys@.len(),
                forall|j: int| 0 <= j < i ==> m.contains_key(#[trigger] keys@[j]),
                out@ == pruned_map(m, keys@.subrange(0, i as int)),
            decreases keys@.len() - i,
        {
            let key = keys[i];
            if snapshot.get(&key).is_none() {
                return PurgeResult::DoesNotExist;
            }
            let ghost before = out@;
            out.put(key, None);
            proof {
                let sub = keys@.subrange(0, i + 1);
                assert forall|k: Key| #[trigger] sub.contains(k) == (keys@.subrange(0, i as int).contains(k) || k == key) by {
                    if sub.contains(k) {
                        let j = choose|j: int| 0 <= j < sub.len() && sub[j] == k;
                        if j < i {
                            assert(keys@.subrange(0, i as int)[j] == k);
                        }
                    }
                    if keys@.subrange(0, i as int).contains(k) {
                        let j = choose|j: int| 0 <= j < i && keys@.subrange(0, i as int)[j] == k;
                        assert(sub[j] == k);
                    }
                    if k == key {
                        assert(sub[i as int] == k);
                    }
                }
                assert(out@ =~= pruned_map(m, sub));
            }
            i = i + 1;
        }
        assert(keys@.subrange(0, keys@.len() as int) =~= keys@);
        PurgeResult::Success { post_state_hash: self.store(out) }
    }
}

} // verus!
