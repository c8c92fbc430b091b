use lighthouse_proofs::broadcast::{BroadcastStatus, ProofBroadcastManager};
use lighthouse_proofs::client::execution_proof_broadcaster::{
    end_broadcast_round, ExecutionProofBroadcasterConfig,
    ProofBroadcastManager as ClientProofBroadcastManager,
};
use lighthouse_proofs::primitives::Hash256;
use lighthouse_proofs::types::ProofId;

#[test]
fn execution_proof_broadcaster_test_broadcast_manager_basic_operations() {
    let mut manager = ClientProofBroadcastManager::new();
    let block_hash = Hash256::from_low_u64_be(0x11);
    let proof_id = ProofId::custom(1);

    let state = manager.get_or_create_state(block_hash, proof_id);
    assert_eq!(state.status, BroadcastStatus::NotBroadcast);

    assert!(manager.mark_broadcasting(block_hash, proof_id));
    let state = manager.get_or_create_state(block_hash, proof_id);
    assert_eq!(state.status, BroadcastStatus::Broadcasting);
    assert_eq!(state.attempts, 1);

    assert!(manager.mark_broadcast_success(block_hash, proof_id));
    let state = manager.get_or_create_state(block_hash, proof_id);
    assert_eq!(state.status, BroadcastStatus::Broadcast);
}

#[test]
fn tests_test_broadcast_manager_basic_operations() {
    let mut manager = ClientProofBroadcastManager::new();
    let block_hash = Hash256::from_low_u64_be(0x11);
    let proof_id = ProofId::custom(1);

    let state = manager.get_or_create_state(block_hash, proof_id);
    assert_eq!(state.status, BroadcastStatus::NotBroadcast);

    assert!(manager.mark_broadcasting(block_hash, proof_id));
    let state = manager.get_or_create_state(block_hash, proof_id);
    assert_eq!(state.status, BroadcastStatus::Broadcasting);
    assert_eq!(state.attempts, 1);

    assert!(manager.mark_broadcast_success(block_hash, proof_id));
    let state = manager.get_or_create_state(block_hash, proof_id);
    assert_eq!(state.status, BroadcastStatus::Broadcast);
}

#[test]
fn execution_proof_broadcaster_test_broadcast_manager_cleanup() {
    let mut manager = ClientProofBroadcastManager::new();
    let block_hash1 = Hash256::from_low_u64_be(0x21);
    let block_hash2 = Hash256::from_low_u64_be(0x22);
    let proof_id = ProofId::custom(1);

    manager.mark_broadcasting(block_hash1, proof_id);
    manager.mark_broadcasting(block_hash2, proof_id);

    let state1 = manager.get_or_create_state(block_hash1, proof_id);
    let state2 = manager.get_or_create_state(block_hash2, proof_id);
    assert_eq!(state1.attempts, 1);
    assert_eq!(state2.attempts, 1);
}

#[test]
fn tests_test_broadcast_manager_cleanup() {
    let mut manager = ClientProofBroadcastManager::new();
    let block_hash1 = Hash256::from_low_u64_be(0x21);
    let block_hash2 = Hash256::from_low_u64_be(0x22);
    let proof_id = ProofId::custom(1);

    manager.mark_broadcasting(block_hash1, proof_id);
    manager.mark_broadcasting(block_hash2, proof_id);

    let state1 = manager.get_or_create_state(block_hash1, proof_id);
    let state2 = manager.get_or_create_state(block_hash2, proof_id);
    assert_eq!(state1.attempts, 1);
    assert_eq!(state2.attempts, 1);
}

#[test]
fn execution_proof_broadcaster_test_broadcast_config_defaults() {
    let config = ExecutionProofBroadcasterConfig::default();
    assert_eq!(config.broadcast_interval, 1000);
    assert_eq!(config.max_broadcast_attempts, 3);
    assert_eq!(config.retry_delay, 5000);
}

#[test]
fn tests_test_broadcast_config_defaults() {
    let config = ExecutionProofBroadcasterConfig::default();
    assert_eq!(config.broadcast_interval, 1000);
    assert_eq!(config.max_broadcast_attempts, 3);
    assert_eq!(config.retry_delay, 5000);
}

#[test]
fn execution_proof_broadcaster_test_multiple_proof_ids_same_block() {
    let mut manager = ClientProofBroadcastManager::new();
    let block_hash = Hash256::from_low_u64_be(0x31);
    let proof_id_1 = ProofId::custom(1);
    let proof_id_2 = ProofId::custom(2);

    manager.mark_broadcasting(block_hash, proof_id_1);
    manager.mark_broadcast_success(block_hash, proof_id_1);

    manager.mark_broadcasting(block_hash, proof_id_2);
    manager.mark_broadcast_failed(block_hash, proof_id_2);

    let state1 = manager.get_or_create_state(block_hash, proof_id_1);
    let state2 = manager.get_or_create_state(block_hash, proof_id_2);

    assert_eq!(state1.status, BroadcastStatus::Broadcast);
    assert_eq!(state2.status, BroadcastStatus::Failed);
    assert_eq!(state1.attempts, 1);
    assert_eq!(state2.attempts, 1);
}

#[test]
fn tests_test_multiple_proof_ids_same_block() {
    let mut manager = ClientProofBroadcastManager::new();
    let block_hash = Hash256::from_low_u64_be(0x31);
    let proof_id_1 = ProofId::custom(1);
    let proof_id_2 = ProofId::custom(2);

    manager.mark_broadcasting(block_hash, proof_id_1);
    manager.mark_broadcast_success(block_hash, proof_id_1);

    manager.mark_broadcasting(block_hash, proof_id_2);
    manager.mark_broadcast_failed(block_hash, proof_id_2);

    let state1 = manager.get_or_create_state(block_hash, proof_id_1);
    let state2 = manager.get_or_create_state(block_hash, proof_id_2);

    assert_eq!(state1.status, BroadcastStatus::Broadcast);
    assert_eq!(state2.status, BroadcastStatus::Failed);
    assert_eq!(state1.attempts, 1);
    assert_eq!(state2.attempts, 1);
}

#[test]
fn test_broadcast_manager_states() {
    let mut manager = ProofBroadcastManager::new();
    let block_hash = Hash256::from_low_u64_be(0x41);
    let proof_id = ProofId::custom(1);

    let state = manager.get_or_create_state(block_hash, proof_id);
    assert_eq!(state.status, BroadcastStatus::NotBroadcast);
    assert!(state.is_ready_to_broadcast());

    assert!(manager.mark_broadcasting(block_hash, proof_id));
    let state = manager.get_or_create_state(block_hash, proof_id);
    assert_eq!(state.status, BroadcastStatus::Broadcasting);
    assert!(!state.is_ready_to_broadcast());

    assert!(manager.mark_broadcast_success(block_hash, proof_id));
    let state = manager.get_or_create_state(block_hash, proof_id);
    assert_eq!(state.status, BroadcastStatus::Broadcast);
    assert!(!state.is_ready_to_broadcast());
}

#[test]
fn test_get_ready_proofs() {
    let mut manager = ProofBroadcastManager::new();

    let proof1 = (Hash256::from_low_u64_be(1), ProofId::custom(1));
    let proof2 = (Hash256::from_low_u64_be(2), ProofId::custom(2));
    let proof3 = (Hash256::from_low_u64_be(3), ProofId::custom(3));

    manager.mark_broadcast_success(proof2.0, proof2.1);

    let available = vec![proof1, proof2, proof3];
    let ready = manager.get_proofs_ready_for_broadcast(&available);

    assert_eq!(ready.len(), 2);
    assert!(ready.contains(&proof1));
    assert!(ready.contains(&proof3));
    assert!(!ready.contains(&proof2));
}

#[test]
fn statistics_count_states_by_status() {
    let mut manager = ProofBroadcastManager::new();
    let h = Hash256::from_low_u64_be(7);
    manager.mark_broadcasting(h, ProofId::custom(1));
    manager.mark_broadcasting(h, ProofId::custom(2));
    manager.mark_broadcast_failed(h, ProofId::custom(2));
    manager.mark_broadcasting(h, ProofId::custom(2));
    manager.mark_broadcast_success(h, ProofId::custom(3));
    let stats = manager.get_statistics();
    assert_eq!(stats.total, 3);
    assert_eq!(stats.broadcasting, 2);
    assert_eq!(stats.broadcast, 1);
    assert_eq!(stats.failed, 0);
    assert_eq!(stats.not_broadcast, 0);
    assert_eq!(stats.total_attempts, 3);
}

#[test]
fn cleanup_keeps_only_current_proofs() {
    let mut manager = ProofBroadcastManager::new();
    let a = (Hash256::from_low_u64_be(1), ProofId::custom(1));
    let b = (Hash256::from_low_u64_be(2), ProofId::custom(1));
    manager.mark_broadcasting(a.0, a.1);
    manager.mark_broadcasting(b.0, b.1);
    manager.cleanup_old_states(&[a]);
    assert_eq!(manager.get_statistics().total, 1);
    assert_eq!(manager.get_or_create_state(a.0, a.1).attempts, 1);
    assert_eq!(manager.get_or_create_state(b.0, b.1).attempts, 0);
}

#[test]
fn rounds_with_work_keep_states_and_idle_rounds_clean_up() {
    let mut manager = ProofBroadcastManager::new();
    let a = (Hash256::from_low_u64_be(1), ProofId::custom(1));
    let b = (Hash256::from_low_u64_be(2), ProofId::custom(1));
    manager.mark_broadcasting(a.0, a.1);
    manager.mark_broadcasting(b.0, b.1);
    end_broadcast_round(&mut manager, 1, 0, &[a]);
    assert_eq!(manager.get_statistics().total, 2);
    end_broadcast_round(&mut manager, 0, 2, &[a]);
    assert_eq!(manager.get_statistics().total, 2);
    end_broadcast_round(&mut manager, 0, 0, &[a]);
    assert_eq!(manager.get_statistics().total, 1);
}
