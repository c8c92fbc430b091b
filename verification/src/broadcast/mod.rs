//! Broadcast state of execution proofs.
pub mod manager;
pub mod status;

pub use manager::{BroadcastStatistics, ProofBroadcastManager};
pub use status::{BroadcastStatus, ProofBroadcastState};
