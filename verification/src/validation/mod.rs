//! Proof validation.
pub mod basic;

pub use basic::{BasicProofValidator, ProofValidator};
