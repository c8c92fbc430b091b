//! An execution proof as carried on the consensus side: the proof data of one
//! proof system for an execution payload, with the signed header of the
//! beacon block it belongs to.
use vstd::prelude::*;
use crate::primitives::{le_bytes, push_le_bytes, ExecutionBlockHash, Hash256};
use crate::types::SubnetId;

verus! {

/// The subnet type of execution proofs.
pub type ExecutionProofSubnetId = SubnetId;

/// Maximum size of proof data in bytes (1 MiB for zkVM proofs).
pub const MAX_PROOF_DATA_BYTES: usize = 1048576;

/// The size of a BLS signature, in bytes.
pub const SIGNATURE_BYTES_LEN: usize = 96;

/// The root of the binary merkle tree over `bytes` cut into 32-byte leaves
/// (at least `minimum_leaf_count` of them), as `tree_hash::merkle_root`
/// computes it.
pub uninterp spec fn merkle_root_of(bytes: Seq<u8>, minimum_leaf_count: usize) -> Seq<u8>;

/// `tree_hash::merkle_root`: the 32-byte root of the merkle tree over
/// `bytes` with at least `minimum_leaf_count` leaves. Its value is named, not
/// stated; the bounds keep the leaf count at most half the range of `usize`,
/// where the crate's rounding up to a power of two still fits.
#[verifier::external_body]
fn merkle_root(bytes: &[u8], minimum_leaf_count: usize) -> (r: Vec<u8>)
    requires
        bytes@.len() <= usize::MAX / 2,
        minimum_leaf_count <= usize::MAX / 2,
    ensures
        r@ == merkle_root_of(bytes@, minimum_leaf_count),
        r@.len() == 32,
{
    tree_hash::merkle_root(bytes, minimum_leaf_count).as_slice().to_vec()
}

/// `ssz_types::VariableList::<u8, U1048576>::new`: the list of `data`, which
/// the crate refuses (`Error::OutOfBounds`) when `data` holds more than
/// [`MAX_PROOF_DATA_BYTES`] bytes. The list is handed back as its bytes and
/// the error as its `Debug` text, of which nothing is stated.
#[verifier::external_body]
fn bounded_proof_data(data: Vec<u8>) -> (r: Result<Vec<u8>, String>)
    ensures
        r is Ok <==> data@.len() <= MAX_PROOF_DATA_BYTES,
        r matches Ok(v) ==> v@ == data@,
{
    match ssz_types::VariableList::<u8, ssz_types::typenum::U1048576>::new(data) {
        Ok(list) => Ok(list.into()),
        Err(e) => Err(format!("{:?}", e)),
    }
}

/// A beacon block header.
#[derive(Clone, Copy, PartialEq, Eq, Structural, Debug)]
pub struct BeaconBlockHeader {
    pub slot: u64,
    pub proposer_index: u64,
    pub parent_root: Hash256,
    pub state_root: Hash256,
    pub body_root: Hash256,
}

/// The 32 zero bytes that pad a word to a leaf.
pub open spec fn zero_pad(n: nat) -> Seq<u8> {
    Seq::new(n, |i: int| 0u8)
}

impl BeaconBlockHeader {
    /// The five leaves of the header's tree: slot and proposer index in
    /// little-endian order padded to 32 bytes, then the three roots.
    pub open spec fn spec_leaves(&self) -> Seq<u8> {
        le_bytes(self.slot) + zero_pad(24) + le_bytes(self.proposer_index) + zero_pad(24)
            + self.parent_root.spec_bytes() + self.state_root.spec_bytes() + self.body_root.spec_bytes()
    }

    /// The header's root: the merkle root of its five leaves.
    pub open spec fn spec_root(&self) -> Hash256 {
        Hash256::spec_from_bytes(merkle_root_of(self.spec_leaves(), 5))
    }

    /// The five leaves of the header's tree.
    pub fn leaves(&self) -> (r: Vec<u8>)
        ensures
            r@ == self.spec_leaves(),
    {
        let mut out: Vec<u8> = Vec::new();
        push_le_bytes(&mut out, self.slot);
        push_zeros(&mut out, 24);
        push_le_bytes(&mut out, self.proposer_index);
        push_zeros(&mut out, 24);
        let mut p = self.parent_root.to_bytes();
        out.append(&mut p);
        let mut s = self.state_root.to_bytes();
        out.append(&mut s);
        let mut b = self.body_root.to_bytes();
        out.append(&mut b);
        proof {
            assert(out@ =~= self.spec_leaves());
        }
        out
    }

    /// The header's root (its tree hash).
    pub fn tree_hash_root(&self) -> (r: Hash256)
        ensures
            r == self.spec_root(),
    {
        let leaves = self.leaves();
        let root = merkle_root(leaves.as_slice(), 5);
        Hash256::from_slice(root.as_slice())
    }
}

/// Appends `n` zero bytes.
fn push_zeros(out: &mut Vec<u8>, n: usize)
    ensures
        final(out)@ == old(out)@ + zero_pad(n as nat),
{
    let mut i: usize = 0;
    while i < n
        invariant
            i <= n,
            out@ == old(out)@ + zero_pad(i as nat),
        decreases n - i,
    {
        out.push(0);
        i = i + 1;
        proof {
            assert(out@ =~= old(out)@ + zero_pad(i as nat));
        }
    }
}

/// A beacon block header with its signature bytes.
#[derive(Debug, Clone)]
pub struct SignedBeaconBlockHeader {
    pub message: BeaconBlockHeader,
    pub signature: Vec<u8>,
}

/// `a` and `b` hold the same proof: subnet, block hash, header, signature
/// bytes and proof data.
pub open spec fn same_execution_proof(a: ExecutionProof, b: ExecutionProof) -> bool {
    &&& a.subnet_id == b.subnet_id
    &&& a.block_hash == b.block_hash
    &&& a.signed_block_header.message == b.signed_block_header.message
    &&& a.signed_block_header.signature@ == b.signed_block_header.signature@
    &&& a.proof_data@ == b.proof_data@
}

/// A cryptographic proof (e.g., a zkVM proof) that an execution payload is
/// valid, tied to a beacon block by its signed header.
#[derive(Debug, Clone)]
pub struct ExecutionProof {
    /// Which subnet/proof system this proof belongs to (0-7)
    pub subnet_id: ExecutionProofSubnetId,
    /// The block hash of the execution payload this proof validates
    pub block_hash: ExecutionBlockHash,
    /// The signed beacon block header this proof is associated with.
    pub signed_block_header: SignedBeaconBlockHeader,
    /// The proof data, at most [`MAX_PROOF_DATA_BYTES`] bytes.
    pub proof_data: Vec<u8>,
}

impl ExecutionProof {
    /// A proof from its parts, if the data is at most
    /// [`MAX_PROOF_DATA_BYTES`] bytes; otherwise an error beginning with
    /// `Failed to create proof data: `.
    pub fn new(
        subnet_id: ExecutionProofSubnetId,
        block_hash: ExecutionBlockHash,
        signed_block_header: SignedBeaconBlockHeader,
        proof_data: Vec<u8>,
    ) -> (r: Result<Self, String>)
        ensures
            proof_data@.len() <= MAX_PROOF_DATA_BYTES ==> (r matches Ok(p) && p.subnet_id == subnet_id
                && p.block_hash == block_hash && p.signed_block_header == signed_block_header
                && p.proof_data@ == proof_data@),
            proof_data@.len() > MAX_PROOF_DATA_BYTES ==> (r matches Err(e) && crate::text::starts_with(
                e@,
                "Failed to create proof data: "@,
            )),
    {
        match bounded_proof_data(proof_data) {
            Ok(data) => Ok(ExecutionProof { subnet_id, block_hash, signed_block_header, proof_data: data }),
            Err(e) => Err(crate::text::concat2("Failed to create proof data: ", e.as_str())),
        }
    }

    /// A proof with a minimal header (slot 0, proposer 0, zero parent and
    /// state roots, `block_root` as body root, empty signature).
    pub fn new_for_testing(
        subnet_id: ExecutionProofSubnetId,
        block_hash: ExecutionBlockHash,
        block_root: Hash256,
        proof_data: Vec<u8>,
    ) -> (r: Result<Self, String>)
        ensures
            proof_data@.len() <= MAX_PROOF_DATA_BYTES ==> (r matches Ok(p) && p.subnet_id == subnet_id
                && p.block_hash == block_hash && p.signed_block_header.message == (BeaconBlockHeader {
                slot: 0,
                proposer_index: 0,
                parent_root: Hash256 { w0: 0, w1: 0, w2: 0, w3: 0 },
                state_root: Hash256 { w0: 0, w1: 0, w2: 0, w3: 0 },
                body_root: block_root,
            }) && p.signed_block_header.signature@ == zero_pad(SIGNATURE_BYTES_LEN as nat)
                && p.proof_data@ == proof_data@),
            proof_data@.len() > MAX_PROOF_DATA_BYTES ==> r is Err,
    {
        let header = BeaconBlockHeader {
            slot: 0,
            proposer_index: 0,
            parent_root: Hash256::zero(),
            state_root: Hash256::zero(),
            body_root: block_root,
        };
        let mut signature: Vec<u8> = Vec::new();
        push_zeros(&mut signature, SIGNATURE_BYTES_LEN);
        proof {
            assert(signature@ =~= zero_pad(SIGNATURE_BYTES_LEN as nat));
        }
        let signed_header = SignedBeaconBlockHeader { message: header, signature };
        Self::new(subnet_id, block_hash, signed_header, proof_data)
    }

    /// A copy of the proof (see [`same_execution_proof`]).
    pub fn clone_proof(&self) -> (r: ExecutionProof)
        ensures
            same_execution_proof(r, *self),
    {
        let signature = self.signed_block_header.signature.clone();
        let data = self.proof_data.clone();
        proof {
            assert(signature@ =~= self.signed_block_header.signature@);
            assert(data@ =~= self.proof_data@);
        }
        ExecutionProof {
            subnet_id: self.subnet_id,
            block_hash: self.block_hash,
            signed_block_header: SignedBeaconBlockHeader {
                message: self.signed_block_header.message,
                signature,
            },
            proof_data: data,
        }
    }

    /// The slot of the beacon block this proof is associated with.
    pub fn slot(&self) -> (r: u64)
        ensures
            r == self.signed_block_header.message.slot,
    {
        self.signed_block_header.message.slot
    }

    /// The root of the beacon block: the tree hash of its header.
    pub fn block_root(&self) -> (r: Hash256)
        ensures
            r == self.signed_block_header.message.spec_root(),
    {
        self.signed_block_header.message.tree_hash_root()
    }

    /// The proposer index of the beacon block.
    pub fn proposer_index(&self) -> (r: u64)
        ensures
            r == self.signed_block_header.message.proposer_index,
    {
        self.signed_block_header.message.proposer_index
    }

    /// The size of the proof data in bytes.
    pub fn proof_data_size(&self) -> (r: usize)
        ensures
            r == self.proof_data@.len(),
    {
        self.proof_data.len()
    }

    /// The proof data.
    pub fn proof_data_slice(&self) -> (r: &[u8])
        ensures
            r@ == self.proof_data@,
    {
        self.proof_data.as_slice()
    }

    /// Whether this proof is for the execution block `block_hash`.
    pub fn is_for_block(&self, block_hash: &ExecutionBlockHash) -> (r: bool)
        ensures
            r == (self.block_hash == *block_hash),
    {
        self.block_hash == *block_hash
    }

    /// Whether this proof is from the subnet `subnet_id`.
    pub fn is_from_subnet(&self, subnet_id: ExecutionProofSubnetId) -> (r: bool)
        ensures
            r == (self.subnet_id == subnet_id),
    {
        self.subnet_id == subnet_id
    }
}

/// Identifier for requesting a specific execution proof via RPC: the beacon
/// block root and the subnet. Identifiers are ordered by root, then subnet.
#[derive(Clone, Copy, Debug, PartialEq, Eq, Structural, Hash, PartialOrd, Ord)]
pub struct ExecutionProofIdentifier {
    /// The beacon block root this proof is associated with
    pub block_root: Hash256,
    /// The subnet/proof system ID (0-7)
    pub subnet_id: ExecutionProofSubnetId,
}

impl ExecutionProofIdentifier {
    /// The identifier of the proof of `subnet_id` for `block_root`.
    pub fn new(block_root: Hash256, subnet_id: ExecutionProofSubnetId) -> (r: Self)
        ensures
            r.block_root == block_root,
            r.subnet_id == subnet_id,
    {
        ExecutionProofIdentifier { block_root, subnet_id }
    }
}

} // verus!
