//! A generator of placeholder proofs, for testing and development: it waits
//! a random delay from its range, then produces a proof whose data names the
//! subnet, the block, the witness length and the time.
use rand::Rng;
use vstd::prelude::*;
use vstd::string::StrSliceExecFns;
use crate::primitives::ExecutionBlockHash;
use crate::text::{decimal, push_decimal};
use crate::types::{ErasedExecutionPayload, ExecutionPayloadProof, ProofId, MAX_EXECUTION_PROOF_SUBNETS};

verus! {

/// A uniformly random value in `low..=high`, drawn from the thread's
/// generator with `rand::Rng::random_range`. That call panics on an empty
/// range, hence `low <= high`; only the bounds are promised.
#[verifier::external_body]
pub(crate) fn random_in_range(low: u64, high: u64) -> (r: u64)
    requires
        low <= high,
    ensures
        low <= r <= high,
{
    rand::rng().random_range(low..=high)
}

/// Dummy proof generator that creates placeholder proofs
#[derive(Debug, Clone, Copy)]
pub struct DummyProofGenerator {
    /// Delay range for simulating proof generation time (milliseconds)
    pub delay_range: (u64, u64),
}

/// The text of a dummy proof's data.
pub open spec fn dummy_proof_text(
    proof_id: ProofId,
    block_hash: ExecutionBlockHash,
    block_number: u64,
    witness_len: usize,
    timestamp: u64,
) -> Seq<char> {
    "dummy_proof_subnet_"@ + decimal(proof_id.0 as nat) + "_block_"@ + block_hash.spec_hex()
        + "_number_"@ + decimal(block_number as nat) + "_witness_len_"@ + decimal(
        witness_len as nat,
    ) + "_timestamp_"@ + decimal(timestamp as nat)
}

impl DummyProofGenerator {
    /// A generator that waits 1 to 3 seconds.
    pub fn new() -> (r: Self)
        ensures
            r.delay_range == (1000u64, 3000u64),
    {
        DummyProofGenerator { delay_range: (1000, 3000) }
    }

    /// A generator that waits between `min_ms` and `max_ms`.
    pub fn with_delay_range(min_ms: u64, max_ms: u64) -> (r: Self)
        ensures
            r.delay_range == (min_ms, max_ms),
    {
        DummyProofGenerator { delay_range: (min_ms, max_ms) }
    }

    /// A random delay from the generator's range (milliseconds); the range
    /// must not be empty.
    pub fn pick_delay(&self) -> (r: u64)
        requires
            self.delay_range.0 <= self.delay_range.1,
        ensures
            self.delay_range.0 <= r <= self.delay_range.1,
    {
        random_in_range(self.delay_range.0, self.delay_range.1)
    }

    /// The proof made for `payload` after the delay: a version-1 proof for
    /// the payload's block, whose data is the UTF-8 text of
    /// [`dummy_proof_text`] at `timestamp`. Only proof IDs with a subnet are
    /// accepted.
    pub fn build_proof(
        &self,
        payload: &ErasedExecutionPayload,
        witness: &[u8],
        proof_id: ProofId,
        timestamp: u64,
    ) -> (r: ExecutionPayloadProof)
        requires
            proof_id.0 < MAX_EXECUTION_PROOF_SUBNETS,
        ensures
            r@.block_hash == payload.block_hash,
            r@.proof_id == proof_id,
            r@.version == 1,
            r@.proof_data == vstd::utf8::encode_utf8(
                dummy_proof_text(
                    proof_id,
                    payload.block_hash,
                    payload.block_number,
                    witness@.len() as usize,
                    timestamp,
                ),
            ),
    {
        let execution_block_hash = payload.block_hash;
        let block_number = payload.block_number;
        let subnet = proof_id.subnet_id();
        let mut s = String::from_str("dummy_proof_subnet_");
        push_decimal(&mut s, subnet.id());
        s.append("_block_");
        execution_block_hash.push_hex(&mut s);
        s.append("_number_");
        push_decimal(&mut s, block_number);
        s.append("_witness_len_");
        push_decimal(&mut s, witness.len() as u64);
        s.append("_timestamp_");
        push_decimal(&mut s, timestamp);
        proof {
            assert(s@ =~= dummy_proof_text(
                proof_id,
                execution_block_hash,
                block_number,
                witness@.len() as usize,
                timestamp,
            ));
        }
        let dummy_data = s.as_str().as_bytes_vec();
        ExecutionPayloadProof::new_v1(execution_block_hash, proof_id, dummy_data)
    }

    /// The proof types this generator supports: IDs 0 to 7.
    pub fn supported_proof_types(&self) -> (r: Vec<ProofId>)
        ensures
            r@ == Seq::new(8, |i: int| ProofId(i as u64)),
    {
        let mut v: Vec<ProofId> = Vec::new();
        v.push(ProofId::execution_witness());
        let mut i: u64 = 1;
        while i < 8
            invariant
                1 <= i <= 8,
                v@ == Seq::new(i as nat, |j: int| ProofId(j as u64)),
            decreases 8 - i,
        {
            v.push(ProofId::custom(i));
            i = i + 1;
            proof {
                assert(v@ =~= Seq::new(i as nat, |j: int| ProofId(j as u64)));
            }
        }
        v
    }

    /// Whether this generator supports a proof type.
    pub fn supports_proof_type(&self, proof_id: ProofId) -> (r: bool)
        ensures
            r == (proof_id.0 < 8),
    {
        let types = self.supported_proof_types();
        let mut i: usize = 0;
        while i < types.len()
            invariant
                i <= types@.len(),
                types@ == Seq::new(8, |j: int| ProofId(j as u64)),
                forall|j: int| 0 <= j < i ==> types@[j] != proof_id,
            decreases types@.len() - i,
        {
            if types[i].0 == proof_id.0 {
                return true;
            }
            i = i + 1;
        }
        proof {
            if proof_id.0 < 8 {
                assert(types@[proof_id.0 as int] == proof_id);
            }
        }
        false
    }
}

impl Default for DummyProofGenerator {
    fn default() -> (r: Self)
        ensures
            r.delay_range == (1000u64, 3000u64),
    {
        Self::new()
    }
}

} // verus!
