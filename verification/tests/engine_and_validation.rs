use lighthouse_proofs::execution_layer::{
    EngineError, ExecutionEngine, MockEngineConfig, MockExecutionEngine, PayloadStatus,
};
use lighthouse_proofs::error::Error;
use lighthouse_proofs::primitives::Hash256;
use lighthouse_proofs::types::{ErasedExecutionPayload, ExecutionPayloadProof, ProofId};
use lighthouse_proofs::validation::{BasicProofValidator, ProofValidator};

fn payload(block_hash: Hash256) -> ErasedExecutionPayload {
    ErasedExecutionPayload {
        block_hash,
        block_number: 100,
        parent_hash: Hash256::from_low_u64_be(0x9999),
        timestamp: 1000,
        payload_bytes: vec![],
    }
}

#[test]
fn test_basic_validation() {
    let validator = BasicProofValidator::new();
    let block_hash = Hash256::from_low_u64_be(0x1234);
    let payload = payload(block_hash);
    let proof = ExecutionPayloadProof::new_v1(block_hash, ProofId::execution_witness(), vec![1, 2, 3]);
    assert!(validator.validate_proof(&proof, &payload).unwrap());
}

#[test]
fn test_validation_failures() {
    let validator = BasicProofValidator::new();
    let block_hash1 = Hash256::from_low_u64_be(1);
    let block_hash2 = Hash256::from_low_u64_be(2);
    let payload = payload(block_hash1);

    let bad_proof = ExecutionPayloadProof::new_v1(block_hash2, ProofId::execution_witness(), vec![1, 2, 3]);
    assert!(validator.validate_proof(&bad_proof, &payload).is_err());

    let empty_proof = ExecutionPayloadProof::new_v1(block_hash1, ProofId::execution_witness(), vec![]);
    assert!(validator.validate_proof_structure(&empty_proof).is_err());
}

#[test]
fn validation_messages_name_the_broken_rule() {
    let validator = BasicProofValidator::with_size_limits(2, 4);
    let h = Hash256::from_low_u64_be(3);
    let small = ExecutionPayloadProof::new_v1(h, ProofId::custom(1), vec![1]);
    match validator.validate_proof_structure(&small) {
        Err(Error::ValidationFailed(m)) => assert_eq!(m, "Proof data too small: 1 bytes (minimum: 2)"),
        other => panic!("unexpected {:?}", other),
    }
    let large = ExecutionPayloadProof::new_v1(h, ProofId::custom(1), vec![1; 5]);
    match validator.validate_proof_structure(&large) {
        Err(Error::ValidationFailed(m)) => assert_eq!(m, "Proof data too large: 5 bytes (maximum: 4)"),
        other => panic!("unexpected {:?}", other),
    }
    let v2 = ExecutionPayloadProof::new(h, ProofId::custom(1), 2, vec![1, 2]);
    match validator.validate_proof_structure(&v2) {
        Err(Error::ValidationFailed(m)) => assert_eq!(m, "Unsupported proof version: 2"),
        other => panic!("unexpected {:?}", other),
    }
    assert_eq!(validator.supported_versions(), vec![1]);
}

#[test]
fn test_mock_engine_basic() {
    let mut engine = MockExecutionEngine::new();
    assert!(engine.is_synced());
    assert!(!engine.is_offline());
    assert_eq!(engine.call_count("is_synced"), 1);
    assert_eq!(engine.call_count("is_offline"), 1);
}

#[test]
fn test_mock_engine_configuration() {
    let config = MockEngineConfig {
        is_synced: false,
        is_offline: true,
        default_payload_status: PayloadStatus::Syncing,
        ..Default::default()
    };
    let mut engine = MockExecutionEngine::with_config(config);
    assert!(!engine.is_synced());
    assert!(engine.is_offline());
    assert!(matches!(engine.upcheck(), Err(EngineError::Offline)));
}

#[test]
fn mock_engine_answers_configured_statuses() {
    let mut engine = MockExecutionEngine::new();
    let h = Hash256::from_low_u64_be(77);
    engine.set_payload_status(h, PayloadStatus::Accepted);
    assert!(matches!(engine.notify_new_payload(h), Ok(PayloadStatus::Accepted)));
    assert!(matches!(engine.notify_new_payload(Hash256::zero()), Ok(PayloadStatus::Valid)));
    assert_eq!(engine.call_count("notify_new_payload"), 2);
    engine.reset_call_counts();
    assert_eq!(engine.call_count("notify_new_payload"), 0);
}

#[test]
fn mock_engine_default_status_can_be_switched() {
    let mut engine = MockExecutionEngine::new();
    let h = Hash256::from_low_u64_be(5);
    engine.set_payload_status(h, PayloadStatus::Accepted);
    engine.all_payloads_syncing();
    assert!(matches!(engine.notify_new_payload(Hash256::zero()), Ok(PayloadStatus::Syncing)));
    assert!(matches!(engine.notify_new_payload(h), Ok(PayloadStatus::Accepted)));
    engine.all_payloads_valid();
    assert!(matches!(engine.notify_new_payload(Hash256::zero()), Ok(PayloadStatus::Valid)));
}
