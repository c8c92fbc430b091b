//! Proven chain state types.
use std::time::Instant;
use vstd::prelude::*;
use crate::clock::unix_time_millis;
use crate::primitives::{ExecutionBlockHash, Hash256};

verus! {

/// Information about a block that has been proven with execution proofs
#[derive(Clone, Copy, PartialEq, Eq, Structural, Debug)]
pub struct ProvenBlockInfo {
    /// The beacon block root
    pub beacon_block_root: Hash256,
    /// The execution block hash
    pub execution_block_hash: ExecutionBlockHash,
    /// The slot of the block
    pub slot: u64,
    /// The parent beacon block root
    pub parent_root: Hash256,
    /// Number of proofs available for this block
    pub proof_count: usize,
    /// When this block was marked as proven (UNIX seconds)
    pub proven_at_timestamp: u64,
}

impl ProvenBlockInfo {
    /// The block's information, stamped with the current UNIX time in seconds.
    pub fn new(
        beacon_block_root: Hash256,
        execution_block_hash: ExecutionBlockHash,
        slot: u64,
        parent_root: Hash256,
        proof_count: usize,
    ) -> (r: Self)
        ensures
            r.beacon_block_root == beacon_block_root,
            r.execution_block_hash == execution_block_hash,
            r.slot == slot,
            r.parent_root == parent_root,
            r.proof_count == proof_count,
    {
        ProvenBlockInfo {
            beacon_block_root,
            execution_block_hash,
            slot,
            parent_root,
            proof_count,
            proven_at_timestamp: unix_time_millis() / 1000,
        }
    }
}

/// State of the proven chain
#[derive(Debug)]
pub struct ProvenChainState {
    /// The current proven head (beacon block root, slot)
    pub proven_head: Option<(Hash256, u64)>,
    /// The proven finalized checkpoint (beacon block root, slot)
    pub proven_finalized: Option<(Hash256, u64)>,
    /// Number of blocks in the proven chain
    pub chain_length: usize,
    /// Last update time
    pub last_update: Option<Instant>,
}

impl ProvenChainState {
    /// No head, no finalized checkpoint, no blocks, never updated.
    pub open spec fn is_initial(&self) -> bool {
        self.proven_head is None && self.proven_finalized is None && self.chain_length == 0
            && self.last_update is None
    }

    /// A copy of the state.
    pub fn copy(&self) -> (r: Self)
        ensures
            r == *self,
    {
        ProvenChainState {
            proven_head: self.proven_head,
            proven_finalized: self.proven_finalized,
            chain_length: self.chain_length,
            last_update: self.last_update,
        }
    }
}

impl Default for ProvenChainState {
    fn default() -> (r: Self)
        ensures
            r.is_initial(),
    {
        ProvenChainState { proven_head: None, proven_finalized: None, chain_length: 0, last_update: None }
    }
}

} // verus!
