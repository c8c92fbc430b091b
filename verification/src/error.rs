//! Errors of the proof system.
use vstd::prelude::*;
use crate::primitives::ExecutionBlockHash;
use crate::text::{decimal, push_decimal};

verus! {

/// Errors of the proof system.
#[derive(Debug)]
pub enum Error {
    InvalidProof { block_hash: ExecutionBlockHash, subnet_id: u64, reason: String },
    ValidationFailed(String),
    GenerationFailed(String),
    StorageError(String),
    ConfigError(String),
    ProofNotFound(ExecutionBlockHash),
    InsufficientProofs { block_hash: ExecutionBlockHash, available: usize, required: usize },
    InvalidSubnetId(u64),
    BroadcastFailed(String),
    ChainTrackingError(String),
    ResourceLimitExceeded(String),
    Internal(String),
    SystemNotInitialized,
}

impl Error {
    /// The error's message.
    pub open spec fn spec_message(&self) -> Seq<char> {
        match self {
            Error::InvalidProof { block_hash, subnet_id, reason } => "Invalid proof for block "@
                + block_hash.spec_hex() + " on subnet "@ + decimal(*subnet_id as nat) + ": "@
                + reason@,
            Error::ValidationFailed(m) => "Proof validation failed: "@ + m@,
            Error::GenerationFailed(m) => "Proof generation failed: "@ + m@,
            Error::StorageError(m) => "Storage error: "@ + m@,
            Error::ConfigError(m) => "Configuration error: "@ + m@,
            Error::ProofNotFound(h) => "Proof not found for block "@ + h.spec_hex(),
            Error::InsufficientProofs { block_hash, available, required } => "Insufficient proofs: "@
                + decimal(*available as nat) + "/"@ + decimal(*required as nat) + " for block "@
                + block_hash.spec_hex(),
            Error::InvalidSubnetId(id) => "Invalid subnet ID: "@ + decimal(*id as nat),
            Error::BroadcastFailed(m) => "Broadcast failed: "@ + m@,
            Error::ChainTrackingError(m) => "Chain tracking error: "@ + m@,
            Error::ResourceLimitExceeded(m) => "Resource limit exceeded: "@ + m@,
            Error::Internal(m) => "Internal error: "@ + m@,
            Error::SystemNotInitialized => "Proof system not initialized"@,
        }
    }

    /// The error's message, with roots written as `0x` and 64 hexadecimal
    /// digits.
    pub fn message(&self) -> (s: String)
        ensures
            s@ == self.spec_message(),
    {
        let mut s = String::new();
        match self {
            Error::InvalidProof { block_hash, subnet_id, reason } => {
                s.append("Invalid proof for block ");
                block_hash.push_hex(&mut s);
                s.append(" on subnet ");
                push_decimal(&mut s, *subnet_id);
                s.append(": ");
                s.append(reason.as_str());
            },
            Error::ValidationFailed(m) => {
                s.append("Proof validation failed: ");
                s.append(m.as_str());
            },
            Error::GenerationFailed(m) => {
                s.append("Proof generation failed: ");
                s.append(m.as_str());
            },
            Error::StorageError(m) => {
                s.append("Storage error: ");
                s.append(m.as_str());
            },
            Error::ConfigError(m) => {
                s.append("Configuration error: ");
                s.append(m.as_str());
            },
            Error::ProofNotFound(h) => {
                s.append("Proof not found for block ");
                h.push_hex(&mut s);
            },
            Error::InsufficientProofs { block_hash, available, required } => {
                s.append("Insufficient proofs: ");
                push_decimal(&mut s, *available as u64);
                s.append("/");
                push_decimal(&mut s, *required as u64);
                s.append(" for block ");
                block_hash.push_hex(&mut s);
            },
            Error::InvalidSubnetId(id) => {
                s.append("Invalid subnet ID: ");
                push_decimal(&mut s, *id);
            },
            Error::BroadcastFailed(m) => {
                s.append("Broadcast failed: ");
                s.append(m.as_str());
            },
            Error::ChainTrackingError(m) => {
                s.append("Chain tracking error: ");
                s.append(m.as_str());
            },
            Error::ResourceLimitExceeded(m) => {
                s.append("Resource limit exceeded: ");
                s.append(m.as_str());
            },
            Error::Internal(m) => {
                s.append("Internal error: ");
                s.append(m.as_str());
            },
            Error::SystemNotInitialized => {
                s.append("Proof system not initialized");
            },
        }
        proof {
            assert(s@ =~= self.spec_message());
        }
        s
    }
}

} // verus!
