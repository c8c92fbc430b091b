//! The availability checker built on explicit per-fork states.
pub mod collections;
pub mod state_machine;
pub mod state_machine_cache;
