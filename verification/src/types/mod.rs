//! Core proof types: proof identifiers and subnets, the stored and the
//! gossiped form of a proof, and the type-erased payload.
pub mod network;
pub mod payload;
pub mod proof_id;
pub mod storage;

pub use network::ExecutionProof;
pub use payload::ErasedExecutionPayload;
pub use proof_id::{ProofId, SubnetId, MAX_EXECUTION_PROOF_SUBNETS};
pub use storage::ExecutionPayloadProof;
