//! Data availability checking with an explicit state machine per block.
pub mod availability;
pub mod checker;
pub mod components;
pub mod error;
pub mod pending_components;
pub mod state_machine;
