//! The beacon node client's background services.
pub mod execution_proof_broadcaster;
