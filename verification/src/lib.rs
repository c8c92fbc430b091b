//! Execution-proof and data-availability logic for a beacon node, with its
//! behaviour stated in contracts and proved by Verus.
#![allow(unused_imports)]

pub mod blocks;
pub mod broadcast;
pub mod cached_tree_hash;
pub mod chain;
pub mod client;
pub mod clock;
pub mod config;
pub mod consensus;
pub mod data_availability_checker;
pub mod data_availability_checker_new;
pub mod error;
pub mod execution_layer;
pub mod execution_proof_cache;
pub mod execution_proof_generation;
pub mod generation;
pub mod keyed;
pub mod network;
pub mod primitives;
pub mod proof_config;
pub mod recency;
pub mod stateless_execution_layer;
pub mod store;
pub mod text;
pub mod types;
pub mod validation;

use vstd::prelude::*;

verus! {

} // verus!
