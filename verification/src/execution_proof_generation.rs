//! Generation and validation of placeholder execution proofs: a proof is
//! made after a random delay, with data naming the proof system, the block
//! and the witness length; a version-1 proof is valid when it has data.
use vstd::prelude::*;
use vstd::string::StrSliceExecFns;
use crate::generation::dummy::random_in_range;
use crate::primitives::ExecutionBlockHash;
use crate::text::{decimal, push_decimal};
use crate::types::ExecutionProof;

verus! {

/// The simulated delay before a proof is ready, in milliseconds (1 to 3 s).
pub fn generation_delay_ms() -> (r: u64)
    ensures
        1000 <= r <= 3000,
{
    random_in_range(1000, 3000)
}

/// The text of a placeholder proof's data.
pub open spec fn proof_text(
    execution_proof_id: u64,
    block_hash: ExecutionBlockHash,
    block_number: u64,
    witness_len: usize,
) -> Seq<char> {
    "dummy_proof_system_"@ + decimal(execution_proof_id as nat) + "_block_"@ + block_hash.spec_hex()
        + "_number_"@ + decimal(block_number as nat) + "_witness_len_"@ + decimal(witness_len as nat)
}

/// The data of a placeholder proof: the UTF-8 text of [`proof_text`]. The
/// same inputs always give the same data.
pub fn dummy_proof_data(
    execution_proof_id: u64,
    block_hash: ExecutionBlockHash,
    block_number: u64,
    execution_state_witness: &[u8],
) -> (r: Vec<u8>)
    ensures
        r@ == vstd::utf8::encode_utf8(
            proof_text(execution_proof_id, block_hash, block_number, execution_state_witness@.len() as usize),
        ),
{
    let mut s = String::from_str("dummy_proof_system_");
    push_decimal(&mut s, execution_proof_id);
    s.append("_block_");
    block_hash.push_hex(&mut s);
    s.append("_number_");
    push_decimal(&mut s, block_number);
    s.append("_witness_len_");
    push_decimal(&mut s, execution_state_witness.len() as u64);
    proof {
        assert(s@ =~= proof_text(
            execution_proof_id,
            block_hash,
            block_number,
            execution_state_witness@.len() as usize,
        ));
    }
    s.as_str().as_bytes_vec()
}

/// Whether a proof is valid: version 1 with data; any other version is not.
pub fn validate_proof(proof: &ExecutionProof) -> (r: bool)
    ensures
        r == (proof.version == 1 && proof.proof_data@.len() > 0),
{
    match proof.version {
        1 => proof.proof_data.len() > 0,
        _ => false,
    }
}

} // verus!
