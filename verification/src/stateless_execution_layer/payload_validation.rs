//! The decisions of the stateless execution layer: whether a gossiped proof
//! is taken, whether a payload has proofs from enough distinct subnets, which
//! subnets to ask peers for, and what the verification of a payload's proofs
//! answers. Storing proofs, running verifiers and sending requests are the
//! caller's.
use vstd::prelude::*;
use crate::consensus::ExecutionProof;
use crate::keyed::VecSet;
use crate::primitives::{ExecutionBlockHash, Hash256};
use crate::text::decimal;
use super::config::{ExecutionProofSubnetId, StatelessExecutionLayerConfig};
use super::errors::{ForkchoiceUpdatedResponse, PayloadStatus, StatelessExecutionLayerError};

verus! {

/// Request to fetch missing proofs from peers via RPC
#[derive(Debug)]
pub struct ProofRequest {
    /// The beacon block root to request proofs for
    pub block_root: Hash256,
    /// The execution block hash
    pub payload_hash: ExecutionBlockHash,
    /// Subnet IDs to request proofs from
    pub subnet_ids: Vec<ExecutionProofSubnetId>,
}

/// The subnets that `proofs` come from.
pub open spec fn proof_subnets(proofs: Seq<ExecutionProof>) -> Set<ExecutionProofSubnetId> {
    Set::new(|s: ExecutionProofSubnetId| exists|i: int| 0 <= i < proofs.len() && #[trigger] proofs[i].subnet_id == s)
}

/// A proof gossiped on `subnet_id` is taken when it names that subnet and
/// the subnet is subscribed; otherwise the error says which rule failed.
pub open spec fn gossip_refusal(
    subscribed: Set<ExecutionProofSubnetId>,
    subnet_id: ExecutionProofSubnetId,
    proof: ExecutionProof,
) -> Option<Seq<char>> {
    if proof.subnet_id != subnet_id {
        Some("Proof subnet_id mismatch"@)
    } else if !subscribed.contains(subnet_id) {
        Some("Unsubscribed subnet"@)
    } else {
        None
    }
}

/// Checks a proof received on gossip subnet `subnet_id` (see
/// [`gossip_refusal`]): a refused proof gives an `Internal` error.
pub fn check_gossip_proof(
    config: &StatelessExecutionLayerConfig,
    subnet_id: ExecutionProofSubnetId,
    proof: &ExecutionProof,
) -> (r: Result<(), StatelessExecutionLayerError>)
    requires
        config.wf(),
    ensures
        match gossip_refusal(config.subscribed_subnets@, subnet_id, *proof) {
            None => r is Ok,
            Some(m) => r matches Err(StatelessExecutionLayerError::Internal(e)) && e@ == m,
        },
{
    if proof.subnet_id != subnet_id {
        return Err(StatelessExecutionLayerError::Internal(String::from_str("Proof subnet_id mismatch")));
    }
    if !config.subscribed_subnets.contains(&subnet_id) {
        return Err(StatelessExecutionLayerError::Internal(String::from_str("Unsubscribed subnet")));
    }
    Ok(())
}

/// The distinct subnets of `proofs`, as a set.
fn subnets_of(proofs: &[ExecutionProof]) -> (r: VecSet<ExecutionProofSubnetId>)
    ensures
        r.wf(),
        r@ == proof_subnets(proofs@),
{
    let mut out: VecSet<ExecutionProofSubnetId> = VecSet::new();
    let mut i: usize = 0;
    while i < proofs.len()
        invariant
            out.wf(),
            i <= proofs@.len(),
            out@ == proof_subnets(proofs@.take(i as int)),
        decreases proofs@.len() - i,
    {
        out.insert(proofs[i].subnet_id);
        proof {
            let t0 = proofs@.take(i as int);
            let t1 = proofs@.take(i + 1);
            assert forall|s: ExecutionProofSubnetId| out@.contains(s) <==> proof_subnets(t1).contains(s) by {
                if proof_subnets(t1).contains(s) {
                    let j = choose|j: int| 0 <= j < t1.len() && #[trigger] t1[j].subnet_id == s;
                    if j < i {
                        assert(t0[j].subnet_id == s);
                    }
                }
                if proof_subnets(t0).contains(s) {
                    let j = choose|j: int| 0 <= j < t0.len() && #[trigger] t0[j].subnet_id == s;
                    assert(t1[j].subnet_id == s);
                }
                if s == proofs@[i as int].subnet_id {
                    assert(t1[i as int].subnet_id == s);
                }
            }
            assert(out@ =~= proof_subnets(t1));
        }
        i = i + 1;
    }
    proof {
        assert(proofs@.take(i as int) =~= proofs@);
    }
    out
}

/// Whether `proofs` come from at least `min_required` distinct subnets.
pub fn has_required_proofs(proofs: &[ExecutionProof], min_required: usize) -> (r: bool)
    ensures
        r == (proof_subnets(proofs@).len() >= min_required),
{
    let subnets = subnets_of(proofs);
    subnets.len() >= min_required
}

/// Keeps the subnets outside `c`.
pub open spec fn not_in(c: Set<ExecutionProofSubnetId>) -> spec_fn(ExecutionProofSubnetId) -> bool {
    |s: ExecutionProofSubnetId| !c.contains(s)
}

/// The subscribed subnets, in order, with no proof among `cached`, cut to
/// the number of proofs still needed (`min_required` less the distinct
/// subnets cached, at least zero).
pub open spec fn subnets_wanted(
    subscribed: Seq<ExecutionProofSubnetId>,
    cached: Set<ExecutionProofSubnetId>,
    min_required: nat,
) -> Seq<ExecutionProofSubnetId> {
    let missing = subscribed.filter(not_in(cached));
    let needed: int = if min_required >= cached.len() {
        min_required - cached.len()
    } else {
        0
    };
    missing.take(if needed < missing.len() {
        needed
    } else {
        missing.len() as int
    })
}

/// The subnets to ask peers for, given the proofs cached for the payload
/// (see [`subnets_wanted`]).
pub fn subnets_to_request(config: &StatelessExecutionLayerConfig, cached: &[ExecutionProof]) -> (r: Vec<
    ExecutionProofSubnetId,
>)
    requires
        config.wf(),
    ensures
        r@ == subnets_wanted(
            config.subscribed_subnets.spec_items(),
            proof_subnets(cached@),
            config.min_proofs_required as nat,
        ),
{
    let have = subnets_of(cached);
    let needed = config.min_proofs_required.saturating_sub(have.len());
    let ghost items = config.subscribed_subnets.spec_items();
    let mut missing: Vec<ExecutionProofSubnetId> = Vec::new();
    let n = config.subscribed_subnets.len();
    let mut i: usize = 0;
    while i < n
        invariant
            config.wf(),
            have.wf(),
            n == items.len(),
            items == config.subscribed_subnets.spec_items(),
            have@ == proof_subnets(cached@),
            i <= n,
            missing@ == items.take(i as int).filter(not_in(have@)),
        decreases n - i,
    {
        let s = config.subscribed_subnets.item_at(i);
        proof {
            reveal(Seq::filter);
            assert(items.take(i + 1).drop_last() =~= items.take(i as int));
        }
        if !have.contains(&s) {
            missing.push(s);
        }
        i = i + 1;
    }
    proof {
        assert(items.take(i as int) =~= items);
    }
    let mut out: Vec<ExecutionProofSubnetId> = Vec::new();
    let mut j: usize = 0;
    while j < missing.len() && j < needed
        invariant
            j <= missing@.len(),
            j <= needed,
            out@ == missing@.take(j as int),
        decreases missing@.len() - j,
    {
        out.push(missing[j]);
        j = j + 1;
        proof {
            assert(out@ =~= missing@.take(j as int));
        }
    }
    proof {
        assert(missing@ == items.filter(not_in(proof_subnets(cached@))));
    }
    out
}

/// The request for the proofs a payload still needs from peers (see
/// [`subnets_to_request`]); none when no subnet is wanted.
pub fn missing_proof_request(
    config: &StatelessExecutionLayerConfig,
    payload_hash: ExecutionBlockHash,
    block_root: Hash256,
    cached: &[ExecutionProof],
) -> (r: Option<ProofRequest>)
    requires
        config.wf(),
    ensures
        match r {
            Some(req) => req.block_root == block_root && req.payload_hash == payload_hash
                && req.subnet_ids@ == subnets_wanted(
                config.subscribed_subnets.spec_items(),
                proof_subnets(cached@),
                config.min_proofs_required as nat,
            ) && req.subnet_ids@.len() > 0,
            None => subnets_wanted(
                config.subscribed_subnets.spec_items(),
                proof_subnets(cached@),
                config.min_proofs_required as nat,
            ).len() == 0,
        },
{
    let subnet_ids = subnets_to_request(config, cached);
    if subnet_ids.len() == 0 {
        None
    } else {
        Some(ProofRequest { block_root, payload_hash, subnet_ids })
    }
}

/// A verdict of successful verification.
pub open spec fn is_success(v: Option<Result<bool, String>>) -> bool {
    v matches Some(Ok(true))
}

/// The subnets whose proofs were verified among the first `n` proofs: those
/// whose verdict is a successful verification.
pub open spec fn verified_subnets(
    proofs: Seq<ExecutionProof>,
    verdicts: Seq<Option<Result<bool, String>>>,
    n: int,
) -> Set<ExecutionProofSubnetId>
    decreases n,
{
    if n <= 0 {
        Set::empty()
    } else {
        let prev = verified_subnets(proofs, verdicts, n - 1);
        if is_success(verdicts[n - 1]) {
            prev.insert(proofs[n - 1].subnet_id)
        } else {
            prev
        }
    }
}

/// Verification stops with success at the first proof whose successful
/// verification brings the verified subnets to `min_required`.
pub open spec fn threshold_met(
    proofs: Seq<ExecutionProof>,
    verdicts: Seq<Option<Result<bool, String>>>,
    min_required: nat,
) -> bool {
    exists|n: int|
        0 < n <= proofs.len() && is_success(verdicts[n - 1]) && #[trigger] verified_subnets(
            proofs,
            verdicts,
            n,
        ).len() >= min_required
}

/// The answer of verifying a payload's cached proofs, given for each proof
/// the verdict of its subnet's verifier (`None` when no verifier serves the
/// subnet): success once the proofs verified come from `min_required`
/// distinct subnets (see [`threshold_met`]); otherwise `InsufficientProofs`
/// with the number of distinct subnets verified.
pub fn verify_outcome(
    min_required: usize,
    proofs: &[ExecutionProof],
    verdicts: &[Option<Result<bool, String>>],
) -> (r: Result<(), StatelessExecutionLayerError>)
    requires
        verdicts@.len() == proofs@.len(),
    ensures
        threshold_met(proofs@, verdicts@, min_required as nat) ==> r is Ok,
        !threshold_met(proofs@, verdicts@, min_required as nat) ==> (r matches Err(
            StatelessExecutionLayerError::InsufficientProofs { required, verified },
        ) && required == min_required && verified == verified_subnets(
            proofs@,
            verdicts@,
            proofs@.len() as int,
        ).len()),
{
    let mut seen: VecSet<ExecutionProofSubnetId> = VecSet::new();
    let mut i: usize = 0;
    while i < proofs.len()
        invariant
            seen.wf(),
            verdicts@.len() == proofs@.len(),
            i <= proofs@.len(),
            seen@ == verified_subnets(proofs@, verdicts@, i as int),
            forall|n: int|
                0 < n <= i ==> !(is_success(verdicts@[n - 1]) && #[trigger] verified_subnets(
                    proofs@,
                    verdicts@,
                    n,
                ).len() >= min_required),
        decreases proofs@.len() - i,
    {
        let success = match &verdicts[i] {
            Some(Ok(true)) => true,
            _ => false,
        };
        if success {
            seen.insert(proofs[i].subnet_id);
            proof {
                assert(seen@ == verified_subnets(proofs@, verdicts@, i + 1));
            }
            if seen.len() >= min_required {
                proof {
                    assert(verified_subnets(proofs@, verdicts@, i + 1).len() >= min_required);
                }
                return Ok(());
            }
        } else {
            proof {
                assert(seen@ == verified_subnets(proofs@, verdicts@, i + 1));
            }
        }
        i = i + 1;
    }
    proof {
        if threshold_met(proofs@, verdicts@, min_required as nat) {
            let n = choose|n: int|
                0 < n <= proofs@.len() && is_success(verdicts@[n - 1])
                    && #[trigger] verified_subnets(proofs@, verdicts@, n).len() >= min_required;
            assert(false);
        }
    }
    let verified = seen.len();
    Err(StatelessExecutionLayerError::InsufficientProofs { required: min_required, verified })
}

/// Adding the next proof adds its subnet to the subnets covered.
proof fn lemma_proof_subnets_step(proofs: Seq<ExecutionProof>, n: int)
    requires
        0 <= n < proofs.len(),
    ensures
        proof_subnets(proofs.take(n + 1)) == proof_subnets(proofs.take(n)).insert(proofs[n].subnet_id),
{
    let t0 = proofs.take(n);
    let t1 = proofs.take(n + 1);
    assert forall|s: ExecutionProofSubnetId|
        proof_subnets(t1).contains(s) <==> proof_subnets(t0).insert(proofs[n].subnet_id).contains(s) by {
        if proof_subnets(t1).contains(s) {
            let j = choose|j: int| 0 <= j < t1.len() && #[trigger] t1[j].subnet_id == s;
            if j < n {
                assert(t0[j].subnet_id == s);
            }
        }
        if proof_subnets(t0).contains(s) {
            let j = choose|j: int| 0 <= j < t0.len() && #[trigger] t0[j].subnet_id == s;
            assert(t1[j].subnet_id == s);
        }
        if s == proofs[n].subnet_id {
            assert(t1[n].subnet_id == s);
        }
    }
    assert(proof_subnets(t1) =~= proof_subnets(t0).insert(proofs[n].subnet_id));
}

/// Among the first `n` proofs, the verified subnets are some of the subnets
/// covered, which are finitely many; all of them when every proof verified.
proof fn lemma_verified_within_covered(
    proofs: Seq<ExecutionProof>,
    verdicts: Seq<Option<Result<bool, String>>>,
    n: int,
)
    requires
        0 <= n <= proofs.len(),
        verdicts.len() == proofs.len(),
    ensures
        proof_subnets(proofs.take(n)).finite(),
        verified_subnets(proofs, verdicts, n).subset_of(proof_subnets(proofs.take(n))),
        (forall|i: int| 0 <= i < n ==> #[trigger] is_success(verdicts[i])) ==> verified_subnets(
            proofs,
            verdicts,
            n,
        ) == proof_subnets(proofs.take(n)),
    decreases n,
{
    if n == 0 {
        assert(proof_subnets(proofs.take(0)) =~= Set::<ExecutionProofSubnetId>::empty());
    } else {
        lemma_verified_within_covered(proofs, verdicts, n - 1);
        lemma_proof_subnets_step(proofs, n - 1);
        if forall|i: int| 0 <= i < n ==> #[trigger] is_success(verdicts[i]) {
            assert(is_success(verdicts[n - 1]));
            assert(forall|i: int| 0 <= i < n - 1 ==> #[trigger] is_success(verdicts[i]));
        }
    }
}

/// A payload's proofs pass verification only when they come from at least
/// `min_required` distinct subnets, and they pass once every proof verifies
/// and they come from that many distinct subnets: proofs from one subnet
/// count once.
pub proof fn verification_passes_with_enough_subnets(
    proofs: Seq<ExecutionProof>,
    verdicts: Seq<Option<Result<bool, String>>>,
    min_required: nat,
)
    requires
        verdicts.len() == proofs.len(),
        min_required >= 1,
    ensures
        threshold_met(proofs, verdicts, min_required) ==> proof_subnets(proofs).len() >= min_required,
        (forall|i: int| 0 <= i < proofs.len() ==> #[trigger] is_success(verdicts[i])) && proof_subnets(
            proofs,
        ).len() >= min_required ==> threshold_met(proofs, verdicts, min_required),
{
    let len = proofs.len() as int;
    assert(proofs.take(len) =~= proofs);
    lemma_verified_within_covered(proofs, verdicts, len);
    if threshold_met(proofs, verdicts, min_required) {
        let n = choose|n: int|
            0 < n <= proofs.len() && is_success(verdicts[n - 1]) && #[trigger] verified_subnets(
                proofs,
                verdicts,
                n,
            ).len() >= min_required;
        lemma_verified_within_covered(proofs, verdicts, n);
        assert forall|s: ExecutionProofSubnetId| proof_subnets(proofs.take(n)).contains(s) implies proof_subnets(
            proofs,
        ).contains(s) by {
            let j = choose|j: int| 0 <= j < proofs.take(n).len() && #[trigger] proofs.take(n)[j].subnet_id == s;
            assert(proofs[j].subnet_id == s);
        }
        vstd::set_lib::lemma_len_subset(verified_subnets(proofs, verdicts, n), proof_subnets(proofs.take(n)));
        vstd::set_lib::lemma_len_subset(proof_subnets(proofs.take(n)), proof_subnets(proofs));
    }
    if (forall|i: int| 0 <= i < proofs.len() ==> #[trigger] is_success(verdicts[i])) && proof_subnets(
        proofs,
    ).len() >= min_required {
        if len == 0 {
            assert(proof_subnets(proofs) =~= Set::<ExecutionProofSubnetId>::empty());
        }
        assert(is_success(verdicts[len - 1]));
        assert(verified_subnets(proofs, verdicts, len).len() >= min_required);
    }
}

/// The status answered for a new payload: syncing while its proofs come
/// from too few subnets (`verification` is `None`), else valid when
/// verification succeeded and invalid, with the error's message, when it
/// failed.
pub fn new_payload_status(verification: Option<Result<(), StatelessExecutionLayerError>>) -> (r:
    PayloadStatus)
    ensures
        match verification {
            None => r is Syncing,
            Some(Ok(_)) => r is Valid,
            Some(Err(e)) => r matches PayloadStatus::Invalid { error } && error@ == e.spec_message(),
        },
{
    match verification {
        None => PayloadStatus::Syncing,
        Some(Ok(_)) => PayloadStatus::Valid,
        Some(Err(e)) => PayloadStatus::Invalid { error: e.message() },
    }
}

/// A new payload is answered valid: its proofs come from at least
/// `min_required` distinct subnets and pass verification (see
/// [`threshold_met`]).
pub open spec fn answers_valid(
    proofs: Seq<ExecutionProof>,
    verdicts: Seq<Option<Result<bool, String>>>,
    min_required: nat,
) -> bool {
    proof_subnets(proofs).len() >= min_required && threshold_met(proofs, verdicts, min_required)
}

/// The answer to a new payload, given the proofs cached for it and, for each,
/// the verdict of its subnet's verifier: syncing while the proofs come from
/// too few distinct subnets (see [`has_required_proofs`]); otherwise what
/// verification gives (see [`verify_outcome`], [`new_payload_status`]):
/// valid when it succeeds, else invalid with the number of distinct subnets
/// verified. The verdicts are not read while proofs are too few.
pub fn new_payload_answer(
    min_required: usize,
    cached: &[ExecutionProof],
    verdicts: &[Option<Result<bool, String>>],
) -> (r: PayloadStatus)
    requires
        verdicts@.len() == cached@.len(),
    ensures
        proof_subnets(cached@).len() < min_required ==> r is Syncing,
        r is Valid <==> answers_valid(cached@, verdicts@, min_required as nat),
        proof_subnets(cached@).len() >= min_required && !threshold_met(
            cached@,
            verdicts@,
            min_required as nat,
        ) ==> (r matches PayloadStatus::Invalid { error } && error@ == "Insufficient proofs: required "@
            + decimal(min_required as nat) + ", verified "@ + decimal(
            verified_subnets(cached@, verdicts@, cached@.len() as int).len(),
        )),
{
    if !has_required_proofs(cached, min_required) {
        new_payload_status(None)
    } else {
        new_payload_status(Some(verify_outcome(min_required, cached, verdicts)))
    }
}

/// A new payload is answered valid exactly when its proofs pass
/// verification, which takes proofs from at least `min_required` distinct
/// subnets; when every proof verifies, exactly when they come from that many
/// distinct subnets, proofs from one subnet counting once.
pub proof fn new_payload_valid_with_enough_subnets(
    cached: Seq<ExecutionProof>,
    verdicts: Seq<Option<Result<bool, String>>>,
    min_required: nat,
)
    requires
        verdicts.len() == cached.len(),
        min_required >= 1,
    ensures
        answers_valid(cached, verdicts, min_required) <==> threshold_met(cached, verdicts, min_required),
        (forall|i: int| 0 <= i < cached.len() ==> #[trigger] is_success(verdicts[i])) ==> (answers_valid(
            cached,
            verdicts,
            min_required,
        ) <==> proof_subnets(cached).len() >= min_required),
{
    verification_passes_with_enough_subnets(cached, verdicts, min_required);
}

/// The answer to a fork choice update: the stateless layer builds no
/// payloads, so the head is always taken as valid.
pub fn forkchoice_updated(_head_block_hash: ExecutionBlockHash) -> (r: ForkchoiceUpdatedResponse)
    ensures
        r.payload_status is Valid,
{
    ForkchoiceUpdatedResponse { payload_status: PayloadStatus::Valid }
}

} // verus!
