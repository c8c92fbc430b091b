//! The decisions of the background proof broadcaster: which proofs to send,
//! when a retry is too soon, and how the broadcast state follows a send.
//! The periodic loop and the sending itself are the caller's. Durations are in
//! milliseconds.
use vstd::prelude::*;
use crate::broadcast::manager::state_or_fresh;
use crate::keyed::ProofKey;
use crate::primitives::ExecutionBlockHash;
use crate::types::{ExecutionPayloadProof, ExecutionProof, ProofId, MAX_EXECUTION_PROOF_SUBNETS};

pub use crate::broadcast::{BroadcastStatus, ProofBroadcastManager, ProofBroadcastState};

verus! {

/// Configuration for the execution proof broadcaster
#[derive(Debug, Clone, Copy, PartialEq, Eq, Structural)]
pub struct ExecutionProofBroadcasterConfig {
    /// How often to check for unbroadcast proofs
    pub broadcast_interval: u64,
    /// Maximum number of broadcast attempts per proof
    pub max_broadcast_attempts: u32,
    /// Delay between retries for failed broadcasts
    pub retry_delay: u64,
}

impl Default for ExecutionProofBroadcasterConfig {
    fn default() -> (r: Self)
        ensures
            r == (ExecutionProofBroadcasterConfig {
                broadcast_interval: 1000,
                max_broadcast_attempts: 3,
                retry_delay: 5000,
            }),
    {
        ExecutionProofBroadcasterConfig { broadcast_interval: 1000, max_broadcast_attempts: 3, retry_delay: 5000 }
    }
}

/// A retry is skipped while less than `retry_delay` has passed since the
/// last attempt (time running backwards counts as none passed); a proof never
/// attempted is not skipped.
pub open spec fn spec_retry_too_soon(state: ProofBroadcastState, now: u64, retry_delay: u64) -> bool {
    match state.last_attempt {
        Some(last) => (if now >= last { now - last } else { 0 }) < retry_delay,
        None => false,
    }
}

/// Whether a retry of the proof with `state` should wait (see
/// [`spec_retry_too_soon`]).
pub fn retry_too_soon(state: &ProofBroadcastState, now: u64, retry_delay: u64) -> (r: bool)
    ensures
        r == spec_retry_too_soon(*state, now, retry_delay),
{
    match state.last_attempt {
        Some(last) => now.saturating_sub(last) < retry_delay,
        None => false,
    }
}

/// Starts broadcasting a stored proof: records the attempt, and returns the
/// gossip form of the proof (its version and data, stamped now) to send on
/// the subnet of its proof ID.
pub fn prepare_broadcast(
    manager: &mut ProofBroadcastManager,
    execution_block_hash: ExecutionBlockHash,
    proof_id: ProofId,
    stored_proof: &ExecutionPayloadProof,
) -> (r: ExecutionProof)
    requires
        old(manager).wf(),
        proof_id.0 < MAX_EXECUTION_PROOF_SUBNETS,
        state_or_fresh(old(manager)@, ProofKey(execution_block_hash, proof_id)).attempts < u32::MAX,
    ensures
        final(manager).wf(),
        final(manager)@.dom() == old(manager)@.dom().insert(ProofKey(execution_block_hash, proof_id)),
        forall|k: ProofKey|
            k != ProofKey(execution_block_hash, proof_id) && #[trigger] old(manager)@.contains_key(k)
                ==> final(manager)@[k] == old(manager)@[k],
        state_or_fresh(old(manager)@, ProofKey(execution_block_hash, proof_id)).spec_broadcasting(
            final(manager)@[ProofKey(execution_block_hash, proof_id)],
        ),
        r@.block_hash == execution_block_hash,
        r@.subnet_id == proof_id.0,
        r@.version == stored_proof.version,
        r@.proof_data == stored_proof.proof_data@,
{
    manager.mark_broadcasting(execution_block_hash, proof_id);
    let data = stored_proof.proof_data.clone();
    proof {
        assert(data@ =~= stored_proof.proof_data@);
    }
    ExecutionProof::new_with_current_timestamp(
        execution_block_hash,
        proof_id.subnet_id(),
        stored_proof.version,
        data,
    )
}

/// Records the outcome of sending a proof: broadcast when it was sent,
/// failed otherwise.
pub fn finish_broadcast(
    manager: &mut ProofBroadcastManager,
    execution_block_hash: ExecutionBlockHash,
    proof_id: ProofId,
    sent: bool,
)
    requires
        old(manager).wf(),
    ensures
        final(manager).wf(),
        final(manager)@ == old(manager)@.insert(
            ProofKey(execution_block_hash, proof_id),
            ProofBroadcastState {
                status: if sent {
                    BroadcastStatus::Broadcast
                } else {
                    BroadcastStatus::Failed
                },
                ..state_or_fresh(old(manager)@, ProofKey(execution_block_hash, proof_id))
            },
        ),
{
    if sent {
        manager.mark_broadcast_success(execution_block_hash, proof_id);
    } else {
        manager.mark_broadcast_failed(execution_block_hash, proof_id);
    }
}

/// Ends one round of the broadcaster: when nothing was ready to send or to
/// retry, the states of proofs no longer stored (not in `available`) are
/// forgotten; otherwise the states stay as they are.
pub fn end_broadcast_round(
    manager: &mut ProofBroadcastManager,
    ready_count: usize,
    retry_count: usize,
    available: &[(ExecutionBlockHash, ProofId)],
)
    requires
        old(manager).wf(),
    ensures
        final(manager).wf(),
        ready_count == 0 && retry_count == 0 ==> final(manager)@ == old(manager)@.restrict(
            Set::new(|k: ProofKey| available@.contains((k.0, k.1))),
        ),
        !(ready_count == 0 && retry_count == 0) ==> final(manager)@ == old(manager)@,
{
    if ready_count == 0 && retry_count == 0 {
        manager.cleanup_old_states(available);
    }
}

} // verus!
