//! Structural validation of proofs: data size within limits, a supported
//! version, and the block hash of the payload.
use vstd::prelude::*;
use crate::error::Error;
use crate::primitives::Hash256;
use crate::text::{decimal, push_decimal};
use crate::types::{ErasedExecutionPayload, ExecutionPayloadProof};

verus! {

/// Validation of proofs, for validators to implement.
pub trait ProofValidator {
    /// Validates a proof against an execution payload.
    fn validate_proof(&self, proof: &ExecutionPayloadProof, payload: &ErasedExecutionPayload) -> Result<bool, Error>;

    /// Validates a proof's structure without a payload.
    fn validate_proof_structure(&self, proof: &ExecutionPayloadProof) -> Result<bool, Error>;

    /// The proof versions this validator supports.
    fn supported_versions(&self) -> Vec<u32>;
}

/// Basic proof validator that performs structural validation
#[derive(Debug, Clone, Copy)]
pub struct BasicProofValidator {
    /// Minimum proof data size in bytes
    pub min_proof_size: usize,
    /// Maximum proof data size in bytes
    pub max_proof_size: usize,
}

/// The default largest accepted proof, in bytes (10 MiB).
pub const DEFAULT_MAX_PROOF_SIZE: usize = 10485760;

impl BasicProofValidator {
    /// A validator accepting 1 byte to 10 MiB of proof data.
    pub fn new() -> (r: Self)
        ensures
            r.min_proof_size == 1,
            r.max_proof_size == DEFAULT_MAX_PROOF_SIZE,
    {
        BasicProofValidator { min_proof_size: 1, max_proof_size: DEFAULT_MAX_PROOF_SIZE }
    }

    /// A validator with the given size limits.
    pub fn with_size_limits(min_size: usize, max_size: usize) -> (r: Self)
        ensures
            r.min_proof_size == min_size,
            r.max_proof_size == max_size,
    {
        BasicProofValidator { min_proof_size: min_size, max_proof_size: max_size }
    }

    /// The message of the first structural rule `proof` breaks, if any: too
    /// little data, too much data, or an unsupported version.
    pub open spec fn structure_error(&self, proof: &ExecutionPayloadProof) -> Option<Seq<char>> {
        let n = proof.proof_data@.len();
        if n < self.min_proof_size {
            Some(
                "Proof data too small: "@ + decimal(n) + " bytes (minimum: "@ + decimal(
                    self.min_proof_size as nat,
                ) + ")"@,
            )
        } else if n > self.max_proof_size {
            Some(
                "Proof data too large: "@ + decimal(n) + " bytes (maximum: "@ + decimal(
                    self.max_proof_size as nat,
                ) + ")"@,
            )
        } else if proof.version != 1 {
            Some("Unsupported proof version: "@ + decimal(proof.version as nat))
        } else {
            None
        }
    }

    /// The message when a proof's block hash is not the payload's.
    pub open spec fn mismatch_message(proof_hash: Hash256, payload_hash: Hash256) -> Seq<char> {
        "Proof block hash "@ + proof_hash.spec_hex() + " doesn't match payload hash "@
            + payload_hash.spec_hex()
    }
}

impl ProofValidator for BasicProofValidator {
    /// Valid when the structure is valid and the proof is for the payload's
    /// block; otherwise the first failure, as `ValidationFailed`.
    fn validate_proof(&self, proof: &ExecutionPayloadProof, payload: &ErasedExecutionPayload) -> (r: Result<bool, Error>)
        ensures
            match self.structure_error(proof) {
                Some(m) => r matches Err(Error::ValidationFailed(e)) && e@ == m,
                None => if proof.block_hash != payload.block_hash {
                    r matches Err(Error::ValidationFailed(e)) && e@ == Self::mismatch_message(
                        proof.block_hash,
                        payload.block_hash,
                    )
                } else {
                    r matches Ok(true)
                },
            },
    {
        self.validate_proof_structure(proof)?;
        if proof.block_hash != payload.block_hash {
            let mut s = String::from_str("Proof block hash ");
            proof.block_hash.push_hex(&mut s);
            s.append(" doesn't match payload hash ");
            payload.block_hash.push_hex(&mut s);
            return Err(Error::ValidationFailed(s));
        }
        Ok(true)
    }

    /// Valid when the data size is within the limits and the version is
    /// supported; otherwise the first broken rule, as `ValidationFailed`.
    fn validate_proof_structure(&self, proof: &ExecutionPayloadProof) -> (r: Result<bool, Error>)
        ensures
            match self.structure_error(proof) {
                Some(m) => r matches Err(Error::ValidationFailed(e)) && e@ == m,
                None => r matches Ok(true),
            },
    {
        let n = proof.proof_data.len();
        if n < self.min_proof_size {
            let mut s = String::from_str("Proof data too small: ");
            push_decimal(&mut s, n as u64);
            s.append(" bytes (minimum: ");
            push_decimal(&mut s, self.min_proof_size as u64);
            s.append(")");
            return Err(Error::ValidationFailed(s));
        }
        if n > self.max_proof_size {
            let mut s = String::from_str("Proof data too large: ");
            push_decimal(&mut s, n as u64);
            s.append(" bytes (maximum: ");
            push_decimal(&mut s, self.max_proof_size as u64);
            s.append(")");
            return Err(Error::ValidationFailed(s));
        }
        if !proof.is_version_supported() {
            let mut s = String::from_str("Unsupported proof version: ");
            push_decimal(&mut s, proof.version as u64);
            return Err(Error::ValidationFailed(s));
        }
        Ok(true)
    }

    /// Version 1 only.
    fn supported_versions(&self) -> (r: Vec<u32>)
        ensures
            r@ == seq![1u32],
    {
        let mut v: Vec<u32> = Vec::new();
        v.push(1);
        proof {
            assert(v@ =~= seq![1u32]);
        }
        v
    }
}

impl Default for BasicProofValidator {
    fn default() -> (r: Self)
        ensures
            r.min_proof_size == 1,
            r.max_proof_size == DEFAULT_MAX_PROOF_SIZE,
    {
        Self::new()
    }
}

} // verus!
