use lighthouse_proofs::primitives::Hash256;
use lighthouse_proofs::types::{ExecutionPayloadProof, ProofId};

#[test]
fn test_execution_payload_proof_creation() {
    let block_hash = Hash256::from_low_u64_be(0x1234_5678);
    let proof_id = ProofId::custom(2);
    let proof_data = vec![1, 2, 3, 4, 5];

    let proof = ExecutionPayloadProof::new_v1(block_hash, proof_id, proof_data.clone());

    assert_eq!(proof.block_hash, block_hash);
    assert_eq!(proof.proof_id, proof_id);
    assert_eq!(proof.version, 1);
    assert_eq!(proof.proof_data, proof_data);
    assert!(proof.timestamp > 0);
}

#[test]
fn test_description_and_identifier() {
    let block_hash = Hash256::from_low_u64_be(77);

    let witness_proof = ExecutionPayloadProof::new_v1(block_hash, ProofId::execution_witness(), vec![1]);
    assert_eq!(witness_proof.description(), "Execution witness proof v1");
    assert_eq!(witness_proof.identifier(), "execution_witness_v1");

    let custom_proof = ExecutionPayloadProof::new(block_hash, ProofId::custom(42), 2, vec![1]);
    assert_eq!(custom_proof.description(), "Custom proof type 42 v2");
    assert_eq!(custom_proof.identifier(), "custom_v2");
}

#[test]
fn test_network_conversion() {
    let block_hash = Hash256::from_low_u64_be(99);
    let proof_id = ProofId::custom(3);
    let proof_data = vec![1, 2, 3];

    let storage_proof = ExecutionPayloadProof::new_v1(block_hash, proof_id, proof_data);
    let network_proof = storage_proof.to_network_proof();
    let roundtrip_proof = ExecutionPayloadProof::from_network_proof(&network_proof);

    assert_eq!(storage_proof.block_hash, roundtrip_proof.block_hash);
    assert_eq!(storage_proof.proof_id, roundtrip_proof.proof_id);
    assert_eq!(storage_proof.version, roundtrip_proof.version);
    assert_eq!(storage_proof.proof_data, roundtrip_proof.proof_data);
    assert_eq!(storage_proof.timestamp, roundtrip_proof.timestamp);
}

#[test]
fn network_description_names_block_subnet_and_version() {
    let block_hash = Hash256::from_low_u64_be(1);
    let proof = ExecutionPayloadProof::new_v1(block_hash, ProofId::custom(5), vec![9]);
    let net = proof.to_network_proof();
    assert_eq!(
        net.description(),
        "ExecutionProof(block: 0x0000000000000000000000000000000000000000000000000000000000000001, subnet: 5, version: 1)"
    );
    assert!(net.is_structurally_valid());
    assert!(net.is_version_supported());
}
