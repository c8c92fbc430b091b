use lighthouse_proofs::consensus::ExecutionProof;
use lighthouse_proofs::primitives::Hash256;
use lighthouse_proofs::stateless_execution_layer::config::StatelessExecutionLayerConfig;
use lighthouse_proofs::stateless_execution_layer::errors::{
    PayloadStatus, StatelessExecutionLayerError,
};
use lighthouse_proofs::stateless_execution_layer::payload_validation::{
    check_gossip_proof, forkchoice_updated, has_required_proofs, missing_proof_request,
    new_payload_answer, new_payload_status, subnets_to_request, verify_outcome,
};
use lighthouse_proofs::types::SubnetId;

fn subnet(i: u64) -> SubnetId {
    SubnetId::new(i).unwrap()
}

fn config(subscribed: &[u64], min: usize) -> StatelessExecutionLayerConfig {
    let mut b = StatelessExecutionLayerConfig::builder();
    for s in subscribed {
        b = b.add_subscribed_subnet(subnet(*s));
    }
    b.min_proofs_required(min).build().unwrap()
}

fn proof_on(s: u64, data: Vec<u8>) -> ExecutionProof {
    ExecutionProof::new_for_testing(subnet(s), Hash256::repeat_byte(1), Hash256::repeat_byte(2), data)
        .unwrap()
}

#[test]
fn gossip_proofs_must_name_a_subscribed_subnet() {
    let config = config(&[0], 1);

    let from_unsubscribed = proof_on(1, vec![1, 2, 3]);
    match check_gossip_proof(&config, subnet(1), &from_unsubscribed) {
        Err(StatelessExecutionLayerError::Internal(m)) => assert_eq!(m, "Unsubscribed subnet"),
        other => panic!("unexpected {:?}", other),
    }

    let mut mismatched = proof_on(0, vec![4, 5, 6]);
    mismatched.subnet_id = subnet(1);
    match check_gossip_proof(&config, subnet(0), &mismatched) {
        Err(StatelessExecutionLayerError::Internal(m)) => assert_eq!(m, "Proof subnet_id mismatch"),
        other => panic!("unexpected {:?}", other),
    }

    assert!(check_gossip_proof(&config, subnet(0), &proof_on(0, vec![7])).is_ok());
}

#[test]
fn missing_proofs_are_requested_up_to_the_number_needed() {
    let config = config(&[0, 1, 2], 2);
    let payload_hash = Hash256::repeat_byte(1);
    let block_root = Hash256::repeat_byte(2);
    let cached = vec![proof_on(0, vec![1, 2, 3])];

    assert!(!has_required_proofs(&cached, config.min_proofs_required));
    assert!(matches!(new_payload_status(None), PayloadStatus::Syncing));

    let request = missing_proof_request(&config, payload_hash, block_root, &cached).unwrap();
    assert_eq!(request.block_root, block_root);
    assert_eq!(request.payload_hash, payload_hash);
    assert_eq!(request.subnet_ids.len(), 1);
    assert!(!request.subnet_ids.contains(&subnet(0)));
    assert_eq!(request.subnet_ids, vec![subnet(1)]);

    let none_cached: Vec<ExecutionProof> = vec![];
    assert_eq!(subnets_to_request(&config, &none_cached), vec![subnet(0), subnet(1)]);
}

#[test]
fn no_request_when_sufficient_proofs() {
    let config = config(&[0, 1], 2);
    let cached = vec![proof_on(0, vec![1, 2, 3]), proof_on(1, vec![4, 5, 6])];
    assert!(has_required_proofs(&cached, config.min_proofs_required));
    let verdicts = vec![Some(Ok(true)), Some(Ok(true))];
    let outcome = verify_outcome(config.min_proofs_required, &cached, &verdicts);
    assert!(outcome.is_ok());
    assert!(matches!(new_payload_status(Some(outcome)), PayloadStatus::Valid));
    assert!(missing_proof_request(&config, Hash256::repeat_byte(1), Hash256::repeat_byte(2), &cached)
        .is_none());
}

#[test]
fn multiple_proofs_from_one_subnet_count_once() {
    let cached = vec![proof_on(0, vec![1]), proof_on(0, vec![2]), proof_on(0, vec![3])];
    assert!(!has_required_proofs(&cached, 2));
    assert!(has_required_proofs(&cached, 1));
    let verdicts = vec![Some(Ok(true)), Some(Ok(true)), Some(Ok(true))];
    match verify_outcome(2, &cached, &verdicts) {
        Err(StatelessExecutionLayerError::InsufficientProofs { required, verified }) => {
            assert_eq!((required, verified), (2, 1));
        }
        other => panic!("unexpected {:?}", other),
    }
}

#[test]
fn failed_verifications_leave_the_payload_invalid() {
    let cached = vec![proof_on(0, vec![1]), proof_on(1, vec![2]), proof_on(2, vec![3])];
    let verdicts = vec![Some(Ok(false)), None, Some(Err("broken".to_string()))];
    let outcome = verify_outcome(1, &cached, &verdicts);
    match new_payload_status(Some(outcome)) {
        PayloadStatus::Invalid { error } => assert_eq!(error, "Insufficient proofs: required 1, verified 0"),
        other => panic!("unexpected {:?}", other),
    }
    let mixed = vec![Some(Ok(false)), Some(Ok(true)), None];
    assert!(verify_outcome(1, &cached, &mixed).is_ok());
}

#[test]
fn forkchoice_updates_are_valid() {
    assert!(matches!(forkchoice_updated(Hash256::zero()).payload_status, PayloadStatus::Valid));
}

#[test]
fn payload_turns_valid_once_a_second_subnet_verifies() {
    let mut cached = vec![proof_on(0, vec![1]), proof_on(0, vec![2])];
    assert!(!has_required_proofs(&cached, 2));
    assert!(matches!(new_payload_status(None), PayloadStatus::Syncing));

    cached.push(proof_on(1, vec![3]));
    assert!(has_required_proofs(&cached, 2));
    let verdicts = vec![Some(Ok(true)), Some(Ok(true)), Some(Ok(true))];
    let outcome = verify_outcome(2, &cached, &verdicts);
    assert!(outcome.is_ok());
    assert!(matches!(new_payload_status(Some(outcome)), PayloadStatus::Valid));
}

#[test]
fn new_payload_answers_follow_distinct_subnets() {
    let none: Vec<ExecutionProof> = vec![];
    assert!(matches!(new_payload_answer(2, &none, &[]), PayloadStatus::Syncing));

    let mut cached = vec![proof_on(0, vec![1]), proof_on(0, vec![2])];
    let ok = Some(Ok(true));
    assert!(matches!(
        new_payload_answer(2, &cached, &[ok.clone(), ok.clone()]),
        PayloadStatus::Syncing
    ));

    cached.push(proof_on(1, vec![3]));
    assert!(matches!(
        new_payload_answer(2, &cached, &[ok.clone(), ok.clone(), ok.clone()]),
        PayloadStatus::Valid
    ));
    match new_payload_answer(2, &cached, &[ok.clone(), ok.clone(), Some(Ok(false))]) {
        PayloadStatus::Invalid { error } => {
            assert_eq!(error, "Insufficient proofs: required 2, verified 1")
        }
        other => panic!("unexpected {:?}", other),
    }
}
