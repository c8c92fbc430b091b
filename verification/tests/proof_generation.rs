use lighthouse_proofs::execution_proof_generation::{
    dummy_proof_data, generation_delay_ms, validate_proof,
};
use lighthouse_proofs::primitives::Hash256;
use lighthouse_proofs::generation::dummy::DummyProofGenerator;
use lighthouse_proofs::types::{ErasedExecutionPayload, ExecutionProof, ProofId, SubnetId};

#[test]
fn test_validate_proof() {
    let hash = Hash256::from_low_u64_be(0xabcdef);
    let subnet = SubnetId::new(0).unwrap();

    let v1_proof = ExecutionProof::new(hash, subnet, 1, vec![1, 2, 3], 0);
    assert!(validate_proof(&v1_proof));

    let v2_proof = ExecutionProof::new(hash, subnet, 2, vec![7, 8, 9], 0);
    assert!(!validate_proof(&v2_proof));

    let empty_v1 = ExecutionProof::new(hash, subnet, 1, vec![], 0);
    assert!(!validate_proof(&empty_v1));
}

#[test]
fn dummy_proof_data_names_system_block_number_and_witness() {
    let hash = Hash256::from_low_u64_be(0x1234);
    let data = dummy_proof_data(0, hash, 12345, b"test_witness_data");
    let text = String::from_utf8(data).unwrap();
    assert_eq!(
        text,
        "dummy_proof_system_0_block_0x0000000000000000000000000000000000000000000000000000000000001234_number_12345_witness_len_17"
    );
    assert!(text.contains("system_0"));
    assert!(text.contains("number_12345"));
    assert!(text.contains("witness_len_17"));
}

#[test]
fn dummy_proof_data_is_deterministic() {
    let hash = Hash256::repeat_byte(0x42);
    let a = dummy_proof_data(3, hash, 7, &[1, 2, 3]);
    let b = dummy_proof_data(3, hash, 7, &[9, 9, 9]);
    assert_eq!(a, b);
    let c = dummy_proof_data(4, hash, 7, &[1, 2, 3]);
    assert_ne!(a, c);
}

#[test]
fn generation_delay_stays_between_one_and_three_seconds() {
    for _ in 0..50 {
        let d = generation_delay_ms();
        assert!((1000..=3000).contains(&d));
    }
}

#[test]
fn test_dummy_proof_generation() {
    let generator = DummyProofGenerator::new();
    let payload = ErasedExecutionPayload {
        block_hash: Hash256::from_low_u64_be(0xab),
        block_number: 123,
        parent_hash: Hash256::from_low_u64_be(0xaa),
        timestamp: 1000,
        payload_bytes: vec![],
    };
    let witness = b"test_witness";
    let proof_id = ProofId::custom(1);

    let delay = generator.pick_delay();
    assert!((1000..=3000).contains(&delay));
    let proof = generator.build_proof(&payload, witness, proof_id, 1_700_000_000);

    assert_eq!(proof.block_hash, payload.block_hash);
    assert_eq!(proof.proof_id, proof_id);
    assert!(!proof.proof_data.is_empty());

    let proof_str = String::from_utf8_lossy(&proof.proof_data);
    assert!(proof_str.contains("dummy_proof"));
    assert!(proof_str.contains("subnet_1"));
    assert!(proof_str.contains("number_123"));
    assert!(proof_str.ends_with("_witness_len_12_timestamp_1700000000"));
}
