//! The form of a proof gossiped on the network.
use vstd::prelude::*;
use crate::clock::unix_time_millis;
use crate::primitives::ExecutionBlockHash;
use crate::text::{decimal, push_decimal};
use super::proof_id::SubnetId;

verus! {

/// Execution proof as transmitted over the gossip network
#[derive(Debug, Clone)]
pub struct ExecutionProof {
    /// The execution block hash this proof attests to
    pub block_hash: ExecutionBlockHash,
    /// The subnet ID this proof belongs to
    pub subnet_id: SubnetId,
    /// Version of the proof format
    pub version: u32,
    /// Opaque proof data - structure depends on subnet_id and version
    pub proof_data: Vec<u8>,
    /// Timestamp when this proof was created (Unix timestamp in seconds)
    pub timestamp: u64,
}

/// Mathematical value of an [`ExecutionProof`].
pub struct ExecutionProofView {
    pub block_hash: ExecutionBlockHash,
    pub subnet_id: u64,
    pub version: u32,
    pub proof_data: Seq<u8>,
    pub timestamp: u64,
}

impl View for ExecutionProof {
    type V = ExecutionProofView;

    open spec fn view(&self) -> ExecutionProofView {
        ExecutionProofView {
            block_hash: self.block_hash,
            subnet_id: self.subnet_id.spec_id(),
            version: self.version,
            proof_data: self.proof_data@,
            timestamp: self.timestamp,
        }
    }
}

impl ExecutionProof {
    /// A proof from its parts.
    pub fn new(
        block_hash: ExecutionBlockHash,
        subnet_id: SubnetId,
        version: u32,
        proof_data: Vec<u8>,
        timestamp: u64,
    ) -> (r: ExecutionProof)
        ensures
            r@ == (ExecutionProofView {
                block_hash,
                subnet_id: subnet_id.spec_id(),
                version,
                proof_data: proof_data@,
                timestamp,
            }),
    {
        ExecutionProof { block_hash, subnet_id, version, proof_data, timestamp }
    }

    /// A proof stamped with the current UNIX time in seconds.
    pub fn new_with_current_timestamp(
        block_hash: ExecutionBlockHash,
        subnet_id: SubnetId,
        version: u32,
        proof_data: Vec<u8>,
    ) -> (r: ExecutionProof)
        ensures
            r@.block_hash == block_hash,
            r@.subnet_id == subnet_id.spec_id(),
            r@.version == version,
            r@.proof_data == proof_data@,
    {
        let timestamp = unix_time_millis() / 1000;
        Self::new(block_hash, subnet_id, version, proof_data, timestamp)
    }

    /// Whether the proof has data and a non-zero version.
    pub fn is_structurally_valid(&self) -> (r: bool)
        ensures
            r == (self.proof_data@.len() > 0 && self.version > 0),
    {
        self.proof_data.len() > 0 && self.version > 0
    }

    /// A description naming the block, the subnet and the version.
    pub open spec fn spec_description(&self) -> Seq<char> {
        "ExecutionProof(block: "@ + self.block_hash.spec_hex() + ", subnet: "@ + decimal(
            self.subnet_id.spec_id() as nat,
        ) + ", version: "@ + decimal(self.version as nat) + ")"@
    }

    /// A description naming the block, the subnet and the version.
    pub fn description(&self) -> (r: String)
        ensures
            r@ == self.spec_description(),
    {
        let mut s = String::from_str("ExecutionProof(block: ");
        self.block_hash.push_hex(&mut s);
        s.append(", subnet: ");
        push_decimal(&mut s, self.subnet_id.id());
        s.append(", version: ");
        push_decimal(&mut s, self.version as u64);
        s.append(")");
        proof {
            assert(s@ =~= self.spec_description());
        }
        s
    }

    /// Whether the proof's version is supported (only version 1 is).
    pub fn is_version_supported(&self) -> (r: bool)
        ensures
            r == (self.version == 1),
    {
        self.version == 1
    }
}

} // verus!
