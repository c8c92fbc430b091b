//! Proof generation.
pub mod dummy;

pub use dummy::DummyProofGenerator;
