//! Blocks, deploys and what executing them yields.

use crate::effects::Effects;
use crate::key::{EraId, Key, PublicKey};
use crate::step::EraReport;
use crate::store::{GlobalStateError, StateRoot};
use crate::value::TransformError;
use vstd::prelude::*;

verus! {

/// A protocol version.
#[derive(Clone, Copy, Debug, PartialEq, Eq, Structural, Hash)]
pub struct ProtocolVersion {
    pub major: u32,
    pub minor: u32,
    pub patch: u32,
}

/// Identifies a block.
#[derive(Clone, Copy, Debug, PartialEq, Eq, Structural, Hash)]
pub struct BlockHash(pub u64);

/// Identifies a deploy.
#[derive(Clone, Copy, Debug, PartialEq, Eq, Structural, Hash)]
pub struct DeployHash(pub u64);

/// The header of a deploy.
#[derive(Clone, Copy, Debug, PartialEq, Eq, Structural)]
pub struct DeployHeader {
    pub account: PublicKey,
    pub timestamp: u64,
    pub ttl: u64,
    pub gas_price: u64,
}

/// A transaction: a deploy or a transfer.
#[derive(Debug)]
pub struct Deploy {
    pub hash: DeployHash,
    pub header: DeployHeader,
    /// The code and arguments, as the executor reads them.
    pub session: Vec<u8>,
}

/// Whether a transaction succeeded.
#[derive(Clone, Copy, Debug, PartialEq, Eq, Structural)]
pub enum ExecutionOutcome {
    Success,
    /// The transaction failed; its effects, such as its payment, still count.
    Failure { error_code: u32 },
}

/// What executing one transaction yields.
#[derive(Debug)]
pub struct ExecutionResult {
    pub outcome: ExecutionOutcome,
    /// The effects to commit, whatever the outcome.
    pub effects: Effects,
    pub cost: u64,
}

/// One executed transaction, in block order.
#[derive(Debug)]
pub struct ExecutedDeploy {
    pub deploy_hash: DeployHash,
    pub header: DeployHeader,
    pub result: ExecutionResult,
}

/// A block that consensus has finalized.
#[derive(Debug)]
pub struct FinalizedBlock {
    pub timestamp: u64,
    pub height: u64,
    pub era_id: EraId,
    /// Present on the last block of an era.
    pub era_report: Option<EraReport>,
    pub proposer: PublicKey,
}

/// The state a block is executed on.
#[derive(Clone, Copy, Debug, PartialEq, Eq, Structural)]
pub struct ExecutionPreState {
    pub pre_state_root_hash: StateRoot,
    pub parent_hash: BlockHash,
    pub parent_seed: u64,
    pub next_block_height: u64,
}

/// Where the current protocol version took effect.
#[derive(Clone, Copy, Debug, PartialEq, Eq, Structural)]
pub enum ActivationPoint {
    /// At the start of this era.
    EraId(EraId),
    /// At genesis, at this timestamp.
    Genesis(u64),
}

/// An executed block.
#[derive(Debug)]
pub struct Block {
    pub parent_hash: BlockHash,
    pub parent_seed: u64,
    pub state_root_hash: StateRoot,
    pub height: u64,
    pub era_id: EraId,
    pub timestamp: u64,
    pub proposer: PublicKey,
    /// The weights of the next era's validators, on the last block of an era.
    pub next_era_validator_weights: Option<Vec<(PublicKey, u128)>>,
    pub protocol_version: ProtocolVersion,
}

/// The era step's effects and the validator weights read after it.
#[derive(Debug)]
pub struct StepEffectAndUpcomingEraValidators {
    pub step_effects: Effects,
    pub upcoming_era_validators: Vec<(EraId, Vec<(PublicKey, u128)>)>,
}

/// A block with what executing it yielded.
#[derive(Debug)]
pub struct BlockAndExecutionEffects {
    pub block: Block,
    pub execution_results: Vec<ExecutedDeploy>,
    pub maybe_step_effect_and_upcoming_era_validators: Option<StepEffectAndUpcomingEraValidators>,
}

/// Why a block could not be executed.
#[derive(Clone, Copy, Debug, PartialEq, Eq, Structural)]
pub enum BlockExecutionError {
    /// The block's height is not the next height of the pre-state.
    WrongBlockHeight { block_height: u64, next_block_height: u64 },
    /// The store holds no snapshot at this root.
    RootNotFound(StateRoot),
    /// A transaction did not yield exactly one execution result.
    MoreThanOneExecutionResult,
    /// A transaction's effects do not apply to the state it ran on.
    Transform { key: Key, error: TransformError },
    /// The era step's effects do not apply to the state it ran on.
    Step { key: Key, error: TransformError },
    /// The durable write failed.
    GlobalState(GlobalStateError),
    /// No validator weights were recorded for the era after the step.
    MissingNextEraValidators(EraId),
}

} // verus!
