//! Executing a finalized block, one decision at a time.
//!
//! The transaction executor and the step processor are outside this library:
//! a [`BlockExecution`] says what to run next and takes back what running it
//! yielded. Every transaction runs on the state that all earlier transactions
//! of the block left, inside one block-wide tracking copy; the store is
//! written once, when the block is committed, and old eras are then purged.

use crate::block::{
    ActivationPoint, Block, BlockAndExecutionEffects, BlockExecutionError, Deploy, ExecutedDeploy,
    ExecutionPreState, ExecutionResult, FinalizedBlock, ProtocolVersion,
    StepEffectAndUpcomingEraValidators,
};
use crate::effects::Effects;
use crate::key::{EraId, Key, PublicKey};
use crate::purge::{calculate_purge_eras, purge_eras};
use crate::effects::lookup;
use crate::snapshot::{applied_map, applied_value, effects_apply, first_failure, lemma_apply_merged, merged_effects};
use crate::value::apply_spec;
use crate::step::{eviction_set, step_request, RewardItem, StepRequest};
use crate::store::{
    lemma_root_of_stored, lemma_with_state, pruned_map, root_of, states_distinct, with_state,
    GlobalState, GlobalStateError, PurgeResult, StateRoot,
};
use crate::tracking_copy::TrackingCopy;
use crate::value::{StoredValue, Transform};
use vstd::prelude::*;

verus! {

/// The records after the effect sets `es` are applied to `m` in turn.
pub open spec fn after_effects(m: Map<Key, StoredValue>, es: Seq<Map<Key, Transform>>) -> Map<
    Key,
    StoredValue,
>
    decreases es.len(),
{
    if es.len() == 0 {
        m
    } else {
        applied_map(after_effects(m, es.drop_last()), es.last())
    }
}

/// The effect sets `es` merged into one, in order.
pub open spec fn merged_all(es: Seq<Map<Key, Transform>>) -> Map<Key, Transform>
    decreases es.len(),
{
    if es.len() == 0 {
        Map::empty()
    } else {
        merged_effects(merged_all(es.drop_last()), es.last())
    }
}

/// Each effect set of `es` applies to what the ones before it made of `m`.
pub open spec fn applies_in_turn(m: Map<Key, StoredValue>, es: Seq<Map<Key, Transform>>) -> bool
    decreases es.len(),
{
    es.len() == 0 || (applies_in_turn(m, es.drop_last()) && effects_apply(
        after_effects(m, es.drop_last()),
        es.last(),
    ))
}

/// Effect sets that apply in turn, merged into one, apply at once and reach
/// the same records.
pub proof fn lemma_merged_all(m: Map<Key, StoredValue>, es: Seq<Map<Key, Transform>>)
    requires
        applies_in_turn(m, es),
    ensures
        effects_apply(m, merged_all(es)),
        applied_map(m, merged_all(es)) == after_effects(m, es),
    decreases es.len(),
{
    if es.len() == 0 {
        assert(applied_map(m, Map::<Key, Transform>::empty()) =~= m);
    } else {
        let t = es.drop_last();
        lemma_merged_all(m, t);
        lemma_apply_merged(m, merged_all(t), es.last());
    }
}

/// A block whose transactions each add one to the number under `k`, which is
/// zero in the pre-state, leaves the number of transactions there; every
/// addition applies to what the earlier ones left.
pub proof fn lemma_counted_increments(
    m: Map<Key, StoredValue>,
    k: Key,
    es: Seq<Map<Key, Transform>>,
)
    requires
        lookup(m, k) == Some(StoredValue::Number(0)),
        es.len() <= u64::MAX,
        forall|i: int| 0 <= i < es.len() ==> #[trigger] es[i] == map![k => Transform::AddUInt64(1)],
    ensures
        applies_in_turn(m, es),
        lookup(after_effects(m, es), k) == Some(StoredValue::Number(es.len() as u64)),
    decreases es.len(),
{
    if es.len() > 0 {
        let t = es.drop_last();
        assert forall|i: int| 0 <= i < t.len() implies #[trigger] t[i] == map![k => Transform::AddUInt64(1)] by {
            assert(t[i] == es[i]);
        }
        lemma_counted_increments(m, k, t);
        let prev = after_effects(m, t);
        let e = es.last();
        assert(e == es[es.len() - 1]);
        assert(effects_apply(prev, e)) by {
            assert forall|k2: Key| #[trigger] e.contains_key(k2) implies apply_spec(e[k2], lookup(prev, k2)) is Ok by {
                assert(k2 == k);
            }
        }
        assert(lookup(applied_map(prev, e), k) == applied_value(prev, e, k));
    }
}

/// The effects of executed transactions, in order.
pub open spec fn executed_effects(executed: Seq<ExecutedDeploy>) -> Seq<Map<Key, Transform>> {
    executed.map_values(|d: ExecutedDeploy| d.result.effects@)
}

/// The keys to purge after the block at `height`: those of the batch for the
/// block before it, where the activation point is an era with a known
/// activation height and the block has a predecessor.
pub open spec fn purge_keys(
    activation_point: ActivationPoint,
    activation_point_block_height: Option<u64>,
    height: u64,
    purge_batch_size: u64,
) -> Option<Seq<Key>> {
    match (activation_point, activation_point_block_height) {
        (ActivationPoint::EraId(era), Some(activation_height)) => if height == 0 {
            None
        } else {
            purge_eras(era, activation_height, (height - 1) as u64, purge_batch_size)
        },
        _ => None,
    }
}

/// Every key of `keys` holds a record in `m`.
pub open spec fn all_present(m: Map<Key, StoredValue>, keys: Seq<Key>) -> bool {
    forall|i: int| 0 <= i < keys.len() ==> m.contains_key(#[trigger] keys[i])
}

/// The snapshots and root after purging `keys` from `root`: unchanged where
/// there is nothing to purge, the root is unknown or a key is missing.
pub open spec fn purge_outcome(
    states: Seq<Map<Key, StoredValue>>,
    root: int,
    keys: Option<Seq<Key>>,
) -> (Seq<Map<Key, StoredValue>>, int) {
    match keys {
        Some(ks) => if 0 <= root < states.len() && all_present(states[root], ks) {
            (
                with_state(states, pruned_map(states[root], ks)),
                root_of(states, pruned_map(states[root], ks)),
            )
        } else {
            (states, root)
        },
        None => (states, root),
    }
}

/// The snapshots and final root after a block whose effects make `m` of the
/// pre-state is committed and its purge run.
pub open spec fn block_outcome(
    states: Seq<Map<Key, StoredValue>>,
    m: Map<Key, StoredValue>,
    keys: Option<Seq<Key>>,
) -> (Seq<Map<Key, StoredValue>>, int) {
    purge_outcome(with_state(states, m), root_of(states, m), keys)
}

/// The first entry of `upcoming` for `era`, if any.
pub open spec fn era_weights(upcoming: Seq<(EraId, Vec<(PublicKey, u128)>)>, era: EraId) -> Option<
    Seq<(PublicKey, u128)>,
> {
    if exists|i: int| 0 <= i < upcoming.len() && upcoming[i].0 == era {
        let i = choose|i: int|
            0 <= i < upcoming.len() && upcoming[i].0 == era && forall|j: int|
                0 <= j < i ==> upcoming[j].0 != era;
        Some(upcoming[i].1@)
    } else {
        None
    }
}

/// A block being executed.
#[derive(Debug)]
pub struct BlockExecution {
    pub protocol_version: ProtocolVersion,
    pub pre_state: ExecutionPreState,
    pub block: FinalizedBlock,
    /// The deploys, then the transfers.
    pub transactions: Vec<Deploy>,
    /// The transactions executed so far, in order.
    pub executed: Vec<ExecutedDeploy>,
    /// The block-wide overlay over the pre-state.
    pub scratch: TrackingCopy,
    /// The era step's effects, once it ran.
    pub step_effects: Option<Effects>,
}

/// A block whose effects are in the store, before its purge.
#[derive(Debug)]
pub struct CommittedBlock {
    pub protocol_version: ProtocolVersion,
    pub pre_state: ExecutionPreState,
    pub block: FinalizedBlock,
    pub executed: Vec<ExecutedDeploy>,
    pub step_effects: Option<Effects>,
    /// The root the block's effects were committed to.
    pub state_root_hash: StateRoot,
}

impl BlockExecution {
    /// The effect sets applied to the pre-state so far, in order.
    pub open spec fn block_effects(&self) -> Seq<Map<Key, Transform>> {
        match self.step_effects {
            Some(e) => executed_effects(self.executed@).push(e@),
            None => executed_effects(self.executed@),
        }
    }

    /// The executed transactions are a prefix of the block's, their effects
    /// and the step's are applied in order to the pre-state, and the step
    /// comes after the last transaction of a block that ends an era.
    pub open spec fn wf(&self) -> bool {
        &&& self.scratch.wf()
        &&& self.executed@.len() <= self.transactions@.len()
        &&& forall|i: int|
            0 <= i < self.executed@.len() ==> (#[trigger] self.executed@[i]).deploy_hash
                == self.transactions@[i].hash && self.executed@[i].header
                == self.transactions@[i].header
        &&& self.step_effects is Some ==> self.executed@.len() == self.transactions@.len()
            && self.block.era_report is Some
        &&& self.scratch@ == after_effects(self.scratch.base@, self.block_effects())
        &&& self.scratch.effects@ == merged_all(self.block_effects())
        &&& applies_in_turn(self.scratch.base@, self.block_effects())
    }

    /// A transaction is still to run.
    pub open spec fn is_executing(&self) -> bool {
        self.executed@.len() < self.transactions@.len()
    }

    /// Every transaction ran, and the era step is still to run.
    pub open spec fn awaits_step(&self) -> bool {
        &&& self.executed@.len() == self.transactions@.len()
        &&& self.block.era_report is Some
        &&& self.step_effects is None
    }

    /// Everything ran; the block can be committed.
    pub open spec fn is_complete(&self) -> bool {
        &&& self.executed@.len() == self.transactions@.len()
        &&& (self.block.era_report is None || self.step_effects is Some)
    }

    /// Starts executing `block` on `pre_state`, in `store`. Fails where the
    /// block's height is not the pre-state's next height, or the store holds
    /// no snapshot at the pre-state root. The store is only read.
    pub fn new(
        store: &GlobalState,
        protocol_version: ProtocolVersion,
        pre_state: ExecutionPreState,
        block: FinalizedBlock,
        deploys: Vec<Deploy>,
        transfers: Vec<Deploy>,
    ) -> (r: Result<BlockExecution, BlockExecutionError>)
        requires
            store.wf(),
        ensures
            block.height != pre_state.next_block_height ==> r == Err::<
                BlockExecution,
                BlockExecutionError,
            >(
                BlockExecutionError::WrongBlockHeight {
                    block_height: block.height,
                    next_block_height: pre_state.next_block_height,
                },
            ),
            block.height == pre_state.next_block_height && pre_state.pre_state_root_hash.0
                >= store@.len() ==> r == Err::<BlockExecution, BlockExecutionError>(
                BlockExecutionError::RootNotFound(pre_state.pre_state_root_hash),
            ),
            r is Ok <==> block.height == pre_state.next_block_height
                && pre_state.pre_state_root_hash.0 < store@.len(),
            r matches Ok(e) ==> {
                &&& e.wf()
                &&& e.protocol_version == protocol_version
                &&& e.pre_state == pre_state
                &&& e.block == block
                &&& e.transactions@ == deploys@ + transfers@
                &&& e.executed@.len() == 0
                &&& e.step_effects is None
                &&& e.scratch.base@ == store@[pre_state.pre_state_root_hash.0 as int]
                &&& e.scratch@ == store@[pre_state.pre_state_root_hash.0 as int]
            },
    {
        if block.height != pre_state.next_block_height {
            return Err(
                BlockExecutionError::WrongBlockHeight {
                    block_height: block.height,
                    next_block_height: pre_state.next_block_height,
                },
            );
        }
        let scratch = match TrackingCopy::checkout(store, pre_state.pre_state_root_hash) {
            Some(scratch) => scratch,
            None => return Err(BlockExecutionError::RootNotFound(pre_state.pre_state_root_hash)),
        };
        let mut transactions = deploys;
        let mut transfers = transfers;
        transactions.append(&mut transfers);
        let r = BlockExecution {
            protocol_version,
            pre_state,
            block,
            transactions,
            executed: Vec::new(),
            scratch,
            step_effects: None,
        };
        assert(executed_effects(r.executed@) =~= Seq::<Map<Key, Transform>>::empty());
        Ok(r)
    }

    /// The next transaction to run, if any.
    pub fn next_deploy(&self) -> (r: Option<&Deploy>)
        requires
            self.wf(),
        ensures
            self.is_executing() ==> r == Some(&self.transactions@[self.executed@.len() as int]),
            !self.is_executing() ==> r is None,
    {
        if self.executed.len() < self.transactions.len() {
            Some(&self.transactions[self.executed.len()])
        } else {
            None
        }
    }

    /// The state the next transaction, or the era step, runs on: the
    /// pre-state with the effects of every transaction executed so far
    /// applied in order, and of no other.
    pub fn execution_state(&self) -> (r: &TrackingCopy)
        requires
            self.wf(),
        ensures
            r.wf(),
            r@ == after_effects(self.scratch.base@, self.block_effects()),
            self.step_effects is None ==> r@ == after_effects(
                self.scratch.base@,
                executed_effects(self.executed@),
            ),
    {
        &self.scratch
    }

    /// The block time that transactions run at, in milliseconds.
    pub fn block_time(&self) -> (r: u64)
        ensures
            r == self.block.timestamp,
    {
        self.block.timestamp
    }

    /// Takes what running the next transaction yielded: exactly one result,
    /// whose effects are applied to the block-wide state. Fails, changing
    /// nothing, where there is not exactly one result or its effects do not
    /// apply.
    pub fn record_execution(&mut self, results: Vec<ExecutionResult>) -> (r: Result<
        (),
        BlockExecutionError,
    >)
        requires
            old(self).wf(),
            old(self).is_executing(),
            forall|i: int| 0 <= i < results@.len() ==> (#[trigger] results@[i]).effects.wf(),
        ensures
            final(self).wf(),
            results@.len() != 1 ==> r == Err::<(), BlockExecutionError>(
                BlockExecutionError::MoreThanOneExecutionResult,
            ),
            results@.len() == 1 ==> (r is Ok <==> effects_apply(
                old(self).scratch@,
                results@[0].effects@,
            )),
            match r {
                Ok(()) => {
                    &&& results@.len() == 1
                    &&& final(self).executed@ == old(self).executed@.push(
                        ExecutedDeploy {
                            deploy_hash: old(self).transactions@[old(self).executed@.len() as int].hash,
                            header: old(self).transactions@[old(self).executed@.len() as int].header,
                            result: results@[0],
                        },
                    )
                    &&& final(self).scratch@ == applied_map(old(self).scratch@, results@[0].effects@)
                    &&& final(self).scratch.base@ == old(self).scratch.base@
                    &&& final(self).transactions == old(self).transactions
                    &&& final(self).block == old(self).block
                    &&& final(self).pre_state == old(self).pre_state
                    &&& final(self).protocol_version == old(self).protocol_version
                    &&& final(self).step_effects == old(self).step_effects
                },
                Err(BlockExecutionError::Transform { key, error }) => {
                    &&& results@.len() == 1
                    &&& exists|i: int|
                        first_failure(old(self).scratch@, results@[0].effects.entries@, i, error)
                            && results@[0].effects.entries@[i].0 == key
                    &&& *final(self) == *old(self)
                },
                Err(_) => *final(self) == *old(self),
            },
    {
        if results.len() != 1 {
            return Err(BlockExecutionError::MoreThanOneExecutionResult);
        }
        let mut results = results;
        let result = results.remove(0);
        match self.scratch.merge(&result.effects) {
            Ok(()) => {},
            Err((key, error)) => return Err(BlockExecutionError::Transform { key, error }),
        }
        let i = self.executed.len();
        let deploy_hash = self.transactions[i].hash;
        let header = self.transactions[i].header;
        let ghost old_executed = self.executed@;
        self.executed.push(ExecutedDeploy { deploy_hash, header, result });
        proof {
            assert(executed_effects(self.executed@) =~= executed_effects(old_executed).push(
                self.executed@.last().result.effects@,
            ));
            assert(executed_effects(self.executed@).drop_last() =~= executed_effects(old_executed));
        }
        Ok(())
    }

    /// The step request of a block that ends an era, once every transaction
    /// ran and before the step did.
    pub fn step_request(&self) -> (r: Option<StepRequest>)
        requires
            self.wf(),
        ensures
            r is Some <==> self.awaits_step(),
            r matches Some(req) ==> {
                &&& req.protocol_version == self.protocol_version
                &&& req.next_era_id == EraId(
                    if self.block.era_id.0 < u64::MAX {
                        (self.block.era_id.0 + 1) as u64
                    } else {
                        u64::MAX
                    },
                )
                &&& req.era_end_timestamp_millis == self.block.timestamp
                &&& req.slash_items@.len() == 0
                &&& req.reward_items@.len() == self.block.era_report->0.rewards@.len()
                &&& forall|i: int|
                    0 <= i < req.reward_items@.len() ==> #[trigger] req.reward_items@[i] == (RewardItem {
                        validator_id: self.block.era_report->0.rewards@[i].0,
                        value: self.block.era_report->0.rewards@[i].1,
                    })
                &&& req.evict_items@.len() == eviction_set(
                    self.block.era_report->0.inactive_validators@,
                    self.block.era_report->0.equivocators@,
                ).len()
                &&& forall|i: int|
                    0 <= i < req.evict_items@.len() ==> #[trigger] req.evict_items@[i].validator_id
                        == eviction_set(
                        self.block.era_report->0.inactive_validators@,
                        self.block.era_report->0.equivocators@,
                    )[i]
            },
    {
        if self.executed.len() < self.transactions.len() || self.step_effects.is_some() {
            return None;
        }
        match &self.block.era_report {
            Some(report) => Some(
                step_request(
                    self.protocol_version,
                    report,
                    self.block.timestamp,
                    self.block.era_id.successor(),
                ),
            ),
            None => None,
        }
    }

    /// Takes the era step's effects and applies them to the block-wide state.
    /// Fails, changing nothing, where they do not apply.
    pub fn record_step(&mut self, step_effects: Effects) -> (r: Result<(), BlockExecutionError>)
        requires
            old(self).wf(),
            old(self).awaits_step(),
            step_effects.wf(),
        ensures
            final(self).wf(),
            r is Ok <==> effects_apply(old(self).scratch@, step_effects@),
            match r {
                Ok(()) => {
                    &&& final(self).step_effects == Some(step_effects)
                    &&& final(self).scratch@ == applied_map(old(self).scratch@, step_effects@)
                    &&& final(self).scratch.base@ == old(self).scratch.base@
                    &&& final(self).executed == old(self).executed
                    &&& final(self).transactions == old(self).transactions
                    &&& final(self).block == old(self).block
                    &&& final(self).pre_state == old(self).pre_state
                    &&& final(self).protocol_version == old(self).protocol_version
                },
                Err(BlockExecutionError::Step { key, error }) => {
                    &&& exists|i: int|
                        first_failure(old(self).scratch@, step_effects.entries@, i, error)
                            && step_effects.entries@[i].0 == key
                    &&& *final(self) == *old(self)
                },
                Err(_) => false,
            },
    {
        match self.scratch.merge(&step_effects) {
            Ok(()) => {},
            Err((key, error)) => return Err(BlockExecutionError::Step { key, error }),
        }
        self.step_effects = Some(step_effects);
        proof {
            assert(self.block_effects().drop_last() =~= old(self).block_effects());
        }
        Ok(())
    }

    /// Writes the block's accumulated effects to the store, once, on the
    /// pre-state root.
    pub fn commit(self, store: &mut GlobalState) -> (r: Result<CommittedBlock, BlockExecutionError>)
        requires
            self.wf(),
            self.is_complete(),
            old(store).wf(),
        ensures
            final(store).wf(),
            final(store).effect_commits == if old(store).effect_commits < u64::MAX {
                old(store).effect_commits + 1
            } else {
                old(store).effect_commits as int
            },
            self.pre_state.pre_state_root_hash.0 >= old(store)@.len() ==> r == Err::<
                CommittedBlock,
                BlockExecutionError,
            >(
                BlockExecutionError::GlobalState(
                    GlobalStateError::RootNotFound(self.pre_state.pre_state_root_hash),
                ),
            ),
            old(store)@.len() > self.pre_state.pre_state_root_hash.0 && old(store)@[self.pre_state.pre_state_root_hash.0 as int]
                == self.scratch.base@ ==> r is Ok,
            match r {
                Ok(c) => {
                    &&& c.state_root_hash.0 == root_of(
                        old(store)@,
                        applied_map(
                            old(store)@[self.pre_state.pre_state_root_hash.0 as int],
                            self.scratch.effects@,
                        ),
                    )
                    &&& final(store)@ == with_state(
                        old(store)@,
                        applied_map(
                            old(store)@[self.pre_state.pre_state_root_hash.0 as int],
                            self.scratch.effects@,
                        ),
                    )
                    &&& c.state_root_hash.0 == root_of(
                        old(store)@,
                        applied_map(
                            old(store)@[self.pre_state.pre_state_root_hash.0 as int],
                            merged_all(self.block_effects()),
                        ),
                    )
                    &&& old(store)@[self.pre_state.pre_state_root_hash.0 as int] == self.scratch.base@
                        ==> final(store)@[c.state_root_hash.0 as int] == after_effects(
                        self.scratch.base@,
                        self.block_effects(),
                    )
                    &&& c.protocol_version == self.protocol_version
                    &&& c.pre_state == self.pre_state
                    &&& c.block == self.block
                    &&& c.executed == self.executed
                    &&& c.step_effects == self.step_effects
                },
                Err(BlockExecutionError::GlobalState(_)) => final(store)@ == old(store)@,
                Err(_) => false,
            },
    {
        let root = self.pre_state.pre_state_root_hash;
        let ghost states = store@;
        match store.commit_effects(root, &self.scratch.effects) {
            Ok(state_root_hash) => {
                proof {
                    lemma_with_state(
                        states,
                        applied_map(states[root.0 as int], self.scratch.effects@),
                    );
                }
                let BlockExecution {
                    protocol_version,
                    pre_state,
                    block,
                    transactions: _,
                    executed,
                    scratch: _,
                    step_effects,
                } = self;
                Ok(
                    CommittedBlock {
                        protocol_version,
                        pre_state,
                        block,
                        executed,
                        step_effects,
                        state_root_hash,
                    },
                )
            },
            Err(e) => Err(BlockExecutionError::GlobalState(e)),
        }
    }
}

/// The position of the first entry of `upcoming` for `era`.
fn find_era(upcoming: &Vec<(EraId, Vec<(PublicKey, u128)>)>, era: EraId) -> (r: Option<usize>)
    ensures
        match r {
            Some(i) => i < upcoming@.len() && upcoming@[i as int].0 == era && forall|j: int|
                0 <= j < i ==> upcoming@[j].0 != era,
            None => forall|j: int| 0 <= j < upcoming@.len() ==> upcoming@[j].0 != era,
        },
{
    let mut i: usize = 0;
    while i < upcoming.len()
        invariant
            i <= upcoming@.len(),
            forall|j: int| 0 <= j < i ==> upcoming@[j].0 != era,
        decreases upcoming@.len() - i,
    {
        if upcoming[i].0 == era {
            return Some(i);
        }
        i = i + 1;
    }
    None
}

/// A copy of a list of validator weights.
fn copy_weights(weights: &Vec<(PublicKey, u128)>) -> (r: Vec<(PublicKey, u128)>)
    ensures
        r@ == weights@,
{
    let mut out: Vec<(PublicKey, u128)> = Vec::new();
    let mut i: usize = 0;
    while i < weights.len()
        invariant
            i <= weights@.len(),
            out@ == weights@.subrange(0, i as int),
        decreases weights@.len() - i,
    {
        out.push(weights[i]);
        i = i + 1;
        assert(out@ =~= weights@.subrange(0, i as int));
    }
    assert(out@ =~= weights@);
    out
}

/// The validator weights recorded for `era`: those of its first entry in
/// `upcoming`.
pub fn next_era_weights(upcoming: &Vec<(EraId, Vec<(PublicKey, u128)>)>, era: EraId) -> (r: Option<
    Vec<(PublicKey, u128)>,
>)
    ensures
        match r {
            Some(w) => era_weights(upcoming@, era) == Some(w@),
            None => era_weights(upcoming@, era) is None,
        },
{
    match find_era(upcoming, era) {
        Some(i) => {
            let w = copy_weights(&upcoming[i].1);
            proof {
                let k = choose|k: int|
                    0 <= k < upcoming@.len() && upcoming@[k].0 == era && forall|j: int|
                        0 <= j < k ==> upcoming@[j].0 != era;
                if k < i {
                    assert(upcoming@[k].0 != era);
                } else if i < k {
                    assert(upcoming@[i as int].0 != era);
                }
            }
            Some(w)
        },
        None => None,
    }
}

/// Purges the batch of old era records that is due after the block at
/// `height`, from the snapshot at `root`, and returns the root to go on
/// with. Nothing happens where no batch is due; an unknown root or a key
/// that holds nothing makes the purge a no-op, not an error.
pub fn purge_historical_eras(
    store: &mut GlobalState,
    root: StateRoot,
    activation_point: ActivationPoint,
    activation_point_block_height: Option<u64>,
    height: u64,
    purge_batch_size: u64,
) -> (r: StateRoot)
    requires
        old(store).wf(),
    ensures
        final(store).wf(),
        final(store).effect_commits == old(store).effect_commits,
        (final(store)@, r.0 as int) == purge_outcome(
            old(store)@,
            root.0 as int,
            purge_keys(activation_point, activation_point_block_height, height, purge_batch_size),
        ),
{
    let (activation_era, activation_height) = match (activation_point, activation_point_block_height) {
        (ActivationPoint::EraId(era), Some(activation_height)) => (era, activation_height),
        _ => return root,
    };
    if height == 0 {
        return root;
    }
    let keys = match calculate_purge_eras(activation_era, activation_height, height - 1, purge_batch_size) {
        Some(keys) => keys,
        None => return root,
    };
    let ghost states = store@;
    assert(purge_keys(activation_point, activation_point_block_height, height, purge_batch_size)
        == Some(keys@));
    match store.purge(root, &keys) {
        PurgeResult::Success { post_state_hash } => {
            assert(all_present(states[root.0 as int], keys@));
            post_state_hash
        },
        PurgeResult::RootNotFound => root,
        PurgeResult::DoesNotExist => {
            assert(!all_present(states[root.0 as int], keys@));
            root
        },
    }
}

impl CommittedBlock {
    /// Completes the block: reads the next era's validator weights out of
    /// `upcoming_era_validators` where the step ran, purges the batch of old
    /// era records that is due, and assembles the block. Fails, changing
    /// nothing, where the step ran and no weights are recorded for the era
    /// after the block's.
    pub fn finish(
        self,
        store: &mut GlobalState,
        upcoming_era_validators: Vec<(EraId, Vec<(PublicKey, u128)>)>,
        activation_point: ActivationPoint,
        activation_point_block_height: Option<u64>,
        purge_batch_size: u64,
    ) -> (r: Result<BlockAndExecutionEffects, BlockExecutionError>)
        requires
            old(store).wf(),
        ensures
            final(store).wf(),
            final(store).effect_commits == old(store).effect_commits,
            r is Ok <==> (self.step_effects is None || era_weights(
                upcoming_era_validators@,
                EraId(
                    if self.block.era_id.0 < u64::MAX {
                        (self.block.era_id.0 + 1) as u64
                    } else {
                        u64::MAX
                    },
                ),
            ) is Some),
            self.step_effects is Some && era_weights(upcoming_era_validators@, EraId(
                if self.block.era_id.0 < u64::MAX {
                    (self.block.era_id.0 + 1) as u64
                } else {
                    u64::MAX
                },
            )) is None ==> r == Err::<BlockAndExecutionEffects, BlockExecutionError>(
                BlockExecutionError::MissingNextEraValidators(EraId(
                    if self.block.era_id.0 < u64::MAX {
                        (self.block.era_id.0 + 1) as u64
                    } else {
                        u64::MAX
                    },
                )),
            ) && final(store)@ == old(store)@,
            match r {
                Ok(out) => {
                    &&& (final(store)@, out.block.state_root_hash.0 as int) == purge_outcome(
                        old(store)@,
                        self.state_root_hash.0 as int,
                        purge_keys(
                            activation_point,
                            activation_point_block_height,
                            self.block.height,
                            purge_batch_size,
                        ),
                    )
                    &&& out.block.parent_hash == self.pre_state.parent_hash
                    &&& out.block.parent_seed == self.pre_state.parent_seed
                    &&& out.block.height == self.block.height
                    &&& out.block.era_id == self.block.era_id
                    &&& out.block.timestamp == self.block.timestamp
                    &&& out.block.proposer == self.block.proposer
                    &&& out.block.protocol_version == self.protocol_version
                    &&& out.execution_results == self.executed
                    &&& match self.step_effects {
                        None => {
                            &&& out.block.next_era_validator_weights is None
                            &&& out.maybe_step_effect_and_upcoming_era_validators is None
                        },
                        Some(e) => {
                            &&& out.block.next_era_validator_weights matches Some(w)
                                && era_weights(upcoming_era_validators@, EraId(
                                if self.block.era_id.0 < u64::MAX {
                                    (self.block.era_id.0 + 1) as u64
                                } else {
                                    u64::MAX
                                },
                            )) == Some(w@)
                            &&& out.maybe_step_effect_and_upcoming_era_validators matches Some(s)
                                && s.step_effects == e && s.upcoming_era_validators
                                == upcoming_era_validators
                        },
                    }
                },
                Err(BlockExecutionError::MissingNextEraValidators(_)) => final(store)@ == old(store)@,
                Err(_) => false,
            },
    {
        let CommittedBlock {
            protocol_version,
            pre_state,
            block,
            executed,
            step_effects,
            state_root_hash,
        } = self;
        let (next_era_validator_weights, step) = match step_effects {
            Some(step_effects) => {
                let next_era = block.era_id.successor();
                match next_era_weights(&upcoming_era_validators, next_era) {
                    Some(weights) => (
                        Some(weights),
                        Some(
                            StepEffectAndUpcomingEraValidators {
                                step_effects,
                                upcoming_era_validators,
                            },
                        ),
                    ),
                    None => return Err(BlockExecutionError::MissingNextEraValidators(next_era)),
                }
            },
            None => (None, None),
        };
        let final_root = purge_historical_eras(
            store,
            state_root_hash,
            activation_point,
            activation_point_block_height,
            block.height,
            purge_batch_size,
        );
        let out_block = Block {
            parent_hash: pre_state.parent_hash,
            parent_seed: pre_state.parent_seed,
            state_root_hash: final_root,
            height: block.height,
            era_id: block.era_id,
            timestamp: block.timestamp,
            proposer: block.proposer,
            next_era_validator_weights,
            protocol_version,
        };
        Ok(
            BlockAndExecutionEffects {
                block: out_block,
                execution_results: executed,
                maybe_step_effect_and_upcoming_era_validators: step,
            },
        )
    }
}

/// Replaying a block on the store that its first run produced, from the same
/// pre-state root and with the same effects, yields the same final root and
/// leaves the store unchanged.
pub proof fn lemma_block_replay(
    states: Seq<Map<Key, StoredValue>>,
    pre_root: int,
    effects: Seq<Map<Key, Transform>>,
    keys: Option<Seq<Key>>,
)
    requires
        states_distinct(states),
        0 <= pre_root < states.len(),
    ensures
        ({
            let first = block_outcome(states, after_effects(states[pre_root], effects), keys);
            &&& first.0[pre_root] == states[pre_root]
            &&& block_outcome(first.0, after_effects(first.0[pre_root], effects), keys) == first
        }),
{
    let m = after_effects(states[pre_root], effects);
    lemma_with_state(states, m);
    let s1 = with_state(states, m);
    let r1 = root_of(states, m);
    lemma_root_of_stored(s1, r1);
    let first = block_outcome(states, m, keys);
    match keys {
        Some(ks) => {
            if all_present(s1[r1], ks) {
                let p = pruned_map(s1[r1], ks);
                lemma_with_state(s1, p);
                let s2 = with_state(s1, p);
                let r2 = root_of(s1, p);
                assert(s2[r1] == m);
                lemma_root_of_stored(s2, r1);
                lemma_root_of_stored(s2, r2);
                assert(first == (s2, r2));
            }
        },
        None => {},
    }
}

/// Two runs of a block on stores that hold the same snapshots, from the same
/// pre-state root, whose transactions and era step yield the same effects in
/// the same order and whose purges remove the same keys, reach the same
/// snapshots and the same final root; the records committed are those the
/// effects reach one after another.
pub proof fn lemma_block_deterministic(
    first_states: Seq<Map<Key, StoredValue>>,
    second_states: Seq<Map<Key, StoredValue>>,
    pre_root: int,
    first_effects: Seq<Map<Key, Transform>>,
    second_effects: Seq<Map<Key, Transform>>,
    keys: Option<Seq<Key>>,
)
    requires
        first_states == second_states,
        first_effects == second_effects,
        0 <= pre_root < first_states.len(),
        applies_in_turn(first_states[pre_root], first_effects),
    ensures
        block_outcome(
            first_states,
            applied_map(first_states[pre_root], merged_all(first_effects)),
            keys,
        ) == block_outcome(
            second_states,
            applied_map(second_states[pre_root], merged_all(second_effects)),
            keys,
        ),
        applied_map(first_states[pre_root], merged_all(first_effects)) == after_effects(
            first_states[pre_root],
            first_effects,
        ),
{
    lemma_merged_all(first_states[pre_root], first_effects);
}

} // verus!
