//! The form of a proof kept in storage, with its conversions to and from the
//! gossiped form.
use vstd::prelude::*;
use crate::clock::unix_time_millis;
use crate::primitives::ExecutionBlockHash;
use crate::text::{decimal, push_decimal};
use super::network::{ExecutionProof, ExecutionProofView};
use super::proof_id::{ProofId, MAX_EXECUTION_PROOF_SUBNETS};

verus! {

/// A proof for an execution payload in storage, with full metadata.
#[derive(Debug, Clone)]
pub struct ExecutionPayloadProof {
    /// The execution block hash this proof attests to
    pub block_hash: ExecutionBlockHash,
    /// The ID of the proof type (maps to gossip subnet)
    pub proof_id: ProofId,
    /// Version of the proof format
    pub version: u32,
    /// Opaque proof data - structure depends on proof_id and version
    pub proof_data: Vec<u8>,
    /// When this proof was received or stored (UNIX seconds)
    pub timestamp: u64,
}

/// Mathematical value of an [`ExecutionPayloadProof`].
pub struct ExecutionPayloadProofView {
    pub block_hash: ExecutionBlockHash,
    pub proof_id: ProofId,
    pub version: u32,
    pub proof_data: Seq<u8>,
    pub timestamp: u64,
}

impl View for ExecutionPayloadProof {
    type V = ExecutionPayloadProofView;

    open spec fn view(&self) -> ExecutionPayloadProofView {
        ExecutionPayloadProofView {
            block_hash: self.block_hash,
            proof_id: self.proof_id,
            version: self.version,
            proof_data: self.proof_data@,
            timestamp: self.timestamp,
        }
    }
}

/// The gossiped form of a stored proof: the same fields, the proof ID as its
/// subnet.
pub open spec fn spec_to_network(p: ExecutionPayloadProofView) -> ExecutionProofView {
    ExecutionProofView {
        block_hash: p.block_hash,
        subnet_id: p.proof_id.0,
        version: p.version,
        proof_data: p.proof_data,
        timestamp: p.timestamp,
    }
}

/// The stored form of a gossiped proof: the same fields, the subnet as its
/// proof ID.
pub open spec fn spec_from_network(n: ExecutionProofView) -> ExecutionPayloadProofView {
    ExecutionPayloadProofView {
        block_hash: n.block_hash,
        proof_id: ProofId(n.subnet_id),
        version: n.version,
        proof_data: n.proof_data,
        timestamp: n.timestamp,
    }
}

/// Converting a stored proof to its gossiped form and back gives the same
/// proof, for every proof ID that has a subnet.
pub proof fn network_round_trip(p: ExecutionPayloadProofView)
    requires
        p.proof_id.0 < MAX_EXECUTION_PROOF_SUBNETS,
    ensures
        spec_from_network(spec_to_network(p)) == p,
{
}

/// Converting a gossiped proof to its stored form and back gives the same
/// proof.
pub proof fn storage_round_trip(n: ExecutionProofView)
    ensures
        spec_to_network(spec_from_network(n)) == n,
{
}

impl ExecutionPayloadProof {
    /// A proof from its parts, stamped with the current UNIX time in seconds.
    pub fn new(
        block_hash: ExecutionBlockHash,
        proof_id: ProofId,
        version: u32,
        proof_data: Vec<u8>,
    ) -> (r: ExecutionPayloadProof)
        ensures
            r@.block_hash == block_hash,
            r@.proof_id == proof_id,
            r@.version == version,
            r@.proof_data == proof_data@,
    {
        ExecutionPayloadProof {
            block_hash,
            proof_id,
            version,
            proof_data,
            timestamp: unix_time_millis() / 1000,
        }
    }

    /// A version-1 proof from its parts, stamped with the current time.
    pub fn new_v1(block_hash: ExecutionBlockHash, proof_id: ProofId, proof_data: Vec<u8>) -> (r:
        ExecutionPayloadProof)
        ensures
            r@.block_hash == block_hash,
            r@.proof_id == proof_id,
            r@.version == 1,
            r@.proof_data == proof_data@,
    {
        Self::new(block_hash, proof_id, 1, proof_data)
    }

    /// Whether the proof's version is supported (only version 1 is).
    pub fn is_version_supported(&self) -> (r: bool)
        ensures
            r == (self.version == 1),
    {
        self.version == 1
    }

    /// The proof type's description, ` v` and the version.
    pub fn description(&self) -> (r: String)
        ensures
            r@ == self.proof_id.spec_description() + " v"@ + decimal(self.version as nat),
    {
        let mut s = self.proof_id.description();
        s.append(" v");
        push_decimal(&mut s, self.version as u64);
        s
    }

    /// The proof type's identifier, `_v` and the version.
    pub fn identifier(&self) -> (r: String)
        ensures
            r@ == self.proof_id.spec_identifier() + "_v"@ + decimal(self.version as nat),
    {
        let mut s = String::from_str(self.proof_id.identifier());
        s.append("_v");
        push_decimal(&mut s, self.version as u64);
        s
    }

    /// The gossiped form of the proof (see [`spec_to_network`]); only proof
    /// IDs that have a subnet can be gossiped.
    pub fn to_network_proof(&self) -> (r: ExecutionProof)
        requires
            self.proof_id.0 < MAX_EXECUTION_PROOF_SUBNETS,
        ensures
            r@ == spec_to_network(self@),
    {
        let data = self.proof_data.clone();
        proof {
            assert(data@ =~= self.proof_data@);
        }
        ExecutionProof::new(self.block_hash, self.proof_id.subnet_id(), self.version, data, self.timestamp)
    }

    /// A copy of the proof.
    pub fn clone_proof(&self) -> (r: ExecutionPayloadProof)
        ensures
            r@ == self@,
    {
        let data = self.proof_data.clone();
        proof {
            assert(data@ =~= self.proof_data@);
        }
        ExecutionPayloadProof {
            block_hash: self.block_hash,
            proof_id: self.proof_id,
            version: self.version,
            proof_data: data,
            timestamp: self.timestamp,
        }
    }

    /// The stored form of a gossiped proof (see [`spec_from_network`]).
    pub fn from_network_proof(network_proof: &ExecutionProof) -> (r: ExecutionPayloadProof)
        ensures
            r@ == spec_from_network(network_proof@),
    {
        let data = network_proof.proof_data.clone();
        proof {
            assert(data@ =~= network_proof.proof_data@);
        }
        ExecutionPayloadProof {
            block_hash: network_proof.block_hash,
            proof_id: network_proof.subnet_id.as_proof_id(),
            version: network_proof.version,
            proof_data: data,
            timestamp: network_proof.timestamp,
        }
    }
}

} // verus!
