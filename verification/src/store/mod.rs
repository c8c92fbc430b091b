//! Proof storage.
pub mod memory;
