//! A type-erased execution payload.
use vstd::prelude::*;
use crate::primitives::ExecutionBlockHash;

verus! {

/// The header fields of an execution payload that the proof system reads.
#[derive(Debug, Clone, Copy, PartialEq, Eq, Structural)]
pub struct ExecutionPayload {
    pub block_hash: ExecutionBlockHash,
    pub block_number: u64,
    pub parent_hash: ExecutionBlockHash,
    pub timestamp: u64,
}

impl ExecutionPayload {
    pub fn block_hash(&self) -> (r: ExecutionBlockHash)
        ensures
            r == self.block_hash,
    {
        self.block_hash
    }

    pub fn block_number(&self) -> (r: u64)
        ensures
            r == self.block_number,
    {
        self.block_number
    }

    pub fn parent_hash(&self) -> (r: ExecutionBlockHash)
        ensures
            r == self.parent_hash,
    {
        self.parent_hash
    }

    pub fn timestamp(&self) -> (r: u64)
        ensures
            r == self.timestamp,
    {
        self.timestamp
    }
}

/// Type-erased execution payload that can be used with trait objects
#[derive(Debug, Clone)]
pub struct ErasedExecutionPayload {
    pub block_hash: ExecutionBlockHash,
    pub block_number: u64,
    pub parent_hash: ExecutionBlockHash,
    pub timestamp: u64,
    /// Serialized payload data
    pub payload_bytes: Vec<u8>,
}

impl ErasedExecutionPayload {
    /// The payload's header fields, with no serialized bytes.
    pub fn from_payload(payload: &ExecutionPayload) -> (r: ErasedExecutionPayload)
        ensures
            r.block_hash == payload.block_hash,
            r.block_number == payload.block_number,
            r.parent_hash == payload.parent_hash,
            r.timestamp == payload.timestamp,
            r.payload_bytes@.len() == 0,
    {
        ErasedExecutionPayload {
            block_hash: payload.block_hash(),
            block_number: payload.block_number(),
            parent_hash: payload.parent_hash(),
            timestamp: payload.timestamp(),
            payload_bytes: Vec::new(),
        }
    }
}

} // verus!
