//! The deterministic state-transition core of a blockchain node: a versioned
//! global state store, tracking-copy overlays, the block execution pipeline,
//! the era step and the historical era purge calculator.

pub mod bid;
pub mod binary_response;
pub mod block;
pub mod context_map;
pub mod data_access_layer;
pub mod effects;
pub mod entries;
pub mod execution;
pub mod key;
pub mod purge;
pub mod query;
pub mod snapshot;
pub mod step;
pub mod store;
pub mod tracking_copy;
pub mod value;
