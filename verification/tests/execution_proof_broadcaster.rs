use lighthouse_proofs::broadcast::{BroadcastStatus, ProofBroadcastState};
use lighthouse_proofs::client::execution_proof_broadcaster::{
    BroadcastStatus as ClientBroadcastStatus, ProofBroadcastState as ClientProofBroadcastState,
};

#[test]
fn execution_proof_broadcaster_test_broadcast_status_transitions() {
    let mut state = ClientProofBroadcastState::new();

    assert_eq!(state.status, ClientBroadcastStatus::NotBroadcast);
    assert_eq!(state.attempts, 0);
    assert!(state.last_attempt.is_none());
    assert!(state.is_ready_to_broadcast());

    state.mark_broadcasting();
    assert_eq!(state.status, ClientBroadcastStatus::Broadcasting);
    assert_eq!(state.attempts, 1);
    assert!(state.last_attempt.is_some());
    assert!(!state.is_ready_to_broadcast());

    state.mark_broadcast_success();
    assert_eq!(state.status, ClientBroadcastStatus::Broadcast);
    assert!(!state.is_ready_to_broadcast());

    let mut state = ClientProofBroadcastState::new();
    state.mark_broadcasting();
    state.mark_broadcast_failed();
    assert_eq!(state.status, ClientBroadcastStatus::Failed);
    assert!(state.is_ready_to_broadcast());
    assert!(state.should_retry_broadcast(3));
}

#[test]
fn execution_proof_broadcaster_test_broadcast_state_retry_logic() {
    let mut state = ClientProofBroadcastState::new();

    state.mark_broadcasting();
    state.mark_broadcast_failed();
    assert_eq!(state.attempts, 1);
    assert!(state.should_retry_broadcast(3));

    state.mark_broadcasting();
    state.mark_broadcast_failed();
    assert_eq!(state.attempts, 2);
    assert!(state.should_retry_broadcast(3));

    state.mark_broadcasting();
    state.mark_broadcast_failed();
    assert_eq!(state.attempts, 3);
    assert!(!state.should_retry_broadcast(3));
}

#[test]
fn tests_test_broadcast_status_transitions() {
    let mut state = ProofBroadcastState::new();

    assert_eq!(state.status, BroadcastStatus::NotBroadcast);
    assert_eq!(state.attempts, 0);
    assert!(state.last_attempt.is_none());
    assert!(state.is_ready_to_broadcast());

    state.mark_broadcasting();
    assert_eq!(state.status, BroadcastStatus::Broadcasting);
    assert_eq!(state.attempts, 1);
    assert!(state.last_attempt.is_some());
    assert!(!state.is_ready_to_broadcast());

    state.mark_broadcast_success();
    assert_eq!(state.status, BroadcastStatus::Broadcast);
    assert!(!state.is_ready_to_broadcast());

    let mut state = ProofBroadcastState::new();
    state.mark_broadcasting();
    state.mark_broadcast_failed();
    assert_eq!(state.status, BroadcastStatus::Failed);
    assert!(state.is_ready_to_broadcast());
    assert!(state.should_retry_broadcast(3));
}

#[test]
fn tests_test_broadcast_state_retry_logic() {
    let mut state = ProofBroadcastState::new();

    state.mark_broadcasting();
    state.mark_broadcast_failed();
    assert_eq!(state.attempts, 1);
    assert!(state.should_retry_broadcast(3));

    state.mark_broadcasting();
    state.mark_broadcast_failed();
    assert_eq!(state.attempts, 2);
    assert!(state.should_retry_broadcast(3));

    state.mark_broadcasting();
    state.mark_broadcast_failed();
    assert_eq!(state.attempts, 3);
    assert!(!state.should_retry_broadcast(3));
}

#[test]
fn broadcast_attempts_record_their_time() {
    let mut state = ProofBroadcastState::new();
    state.mark_broadcasting_at(1_000);
    assert_eq!(state.last_attempt, Some(1_000));
    state.mark_broadcast_failed();
    state.mark_broadcasting_at(1_010);
    assert_eq!(state.last_attempt, Some(1_010));
    assert!(state.last_attempt.unwrap() > 1_000);
    assert_eq!(state.attempts, 2);
}
