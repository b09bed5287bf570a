//! Access to global state and to blocks, for the components that query them.

use crate::effects::Effects;
use crate::key::Key;
use crate::snapshot::{applied_map, effects_apply, first_failure, Snapshot};
use crate::store::{root_of, with_state, GlobalState, GlobalStateError, StateRoot};
use crate::tracking_copy::TrackingCopy;
use crate::value::StoredValue;
use vstd::prelude::*;

verus! {

/// The store of blocks.
#[derive(Clone, Copy, Debug, Default)]
pub struct BlockStore(pub ());

impl BlockStore {
    /// A block store.
    pub fn new() -> (r: BlockStore)
        ensures
            r == BlockStore(()),
    {
        BlockStore(())
    }
}

/// Global state together with the block store and the query settings.
#[derive(Clone, Copy, Debug)]
pub struct DataAccessLayer<S> {
    pub block_store: BlockStore,
    pub state: S,
    pub max_query_depth: u64,
    pub enable_entity: bool,
}

impl<S> DataAccessLayer<S> {
    /// The global state.
    pub fn state(&self) -> (r: &S)
        ensures
            *r == self.state,
    {
        &self.state
    }
}

impl DataAccessLayer<GlobalState> {
    /// A tracking copy over the snapshot at `root`; `None` where no snapshot
    /// has that root.
    pub fn tracking_copy(&self, root: StateRoot) -> (r: Option<TrackingCopy>)
        requires
            self.state.wf(),
        ensures
            match r {
                Some(tc) => {
                    &&& root.0 < self.state@.len()
                    &&& tc.wf()
                    &&& tc@ == self.state@[root.0 as int]
                    &&& tc.effects@ == Map::<Key, crate::value::Transform>::empty()
                },
                None => root.0 >= self.state@.len(),
            },
    {
        TrackingCopy::checkout(&self.state, root)
    }

    /// The snapshot at `root`, if any.
    pub fn checkout(&self, root: StateRoot) -> (r: Option<&Snapshot>)
        requires
            self.state.wf(),
        ensures
            match r {
                Some(s) => root.0 < self.state@.len() && s@ == self.state@[root.0 as int],
                None => root.0 >= self.state@.len(),
            },
    {
        self.state.checkout(root)
    }

    /// Commits `effects` on `root`, as [`GlobalState::commit_effects`] does.
    pub fn commit_effects(&mut self, root: StateRoot, effects: &Effects) -> (r: Result<
        StateRoot,
        GlobalStateError,
    >)
        requires
            old(self).state.wf(),
            effects.wf(),
        ensures
            final(self).state.wf(),
            final(self).block_store == old(self).block_store,
            final(self).max_query_depth == old(self).max_query_depth,
            final(self).enable_entity == old(self).enable_entity,
            final(self).state.effect_commits == if old(self).state.effect_commits < u64::MAX {
                old(self).state.effect_commits + 1
            } else {
                old(self).state.effect_commits as int
            },
            root.0 >= old(self).state@.len() ==> r == Err::<StateRoot, GlobalStateError>(
                GlobalStateError::RootNotFound(root),
            ),
            root.0 < old(self).state@.len() ==> (r is Ok <==> effects_apply(
                old(self).state@[root.0 as int],
                effects@,
            )),
            match r {
                Ok(new_root) => {
                    &&& new_root.0 == root_of(
                        old(self).state@,
                        applied_map(old(self).state@[root.0 as int], effects@),
                    )
                    &&& final(self).state@ == with_state(
                        old(self).state@,
                        applied_map(old(self).state@[root.0 as int], effects@),
                    )
                },
                Err(GlobalStateError::Transform { key, error }) => {
                    &&& root.0 < old(self).state@.len()
                    &&& exists|i: int|
                        first_failure(old(self).state@[root.0 as int], effects.entries@, i, error)
                            && effects.entries@[i].0 == key
                    &&& final(self).state@ == old(self).state@
                },
                Err(GlobalStateError::RootNotFound(_)) => final(self).state@ == old(self).state@,
            },
    {
        self.state.commit_effects(root, effects)
    }
}

} // verus!
