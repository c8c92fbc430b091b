//! Tracking of the chain of blocks proven by execution proofs.
pub mod state;
pub mod tracker;

pub use state::{ProvenBlockInfo, ProvenChainState};
pub use tracker::ProvenChainTracker;
