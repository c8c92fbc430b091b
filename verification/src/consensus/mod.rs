//! Consensus types of execution proofs: proof subnets, the proof as carried
//! with its block header, and the identifier proofs are requested by.
pub mod execution_proof;
pub mod proof_subnet_id;

pub use execution_proof::{
    BeaconBlockHeader, ExecutionProof, ExecutionProofIdentifier, SignedBeaconBlockHeader,
};
pub use proof_subnet_id::{proof_subnet_id_to_string, ProofSubnetId, ProofType, PROOF_SUBNET_COUNT};
