use lighthouse_proofs::consensus::execution_proof::{
    BeaconBlockHeader, ExecutionProof, SignedBeaconBlockHeader, MAX_PROOF_DATA_BYTES,
    SIGNATURE_BYTES_LEN,
};
use lighthouse_proofs::primitives::Hash256;
use lighthouse_proofs::types::SubnetId as ExecutionProofSubnetId;

fn create_test_header(slot: u64) -> SignedBeaconBlockHeader {
    let header = BeaconBlockHeader {
        slot,
        proposer_index: 0,
        parent_root: Hash256::zero(),
        state_root: Hash256::zero(),
        body_root: Hash256::zero(),
    };
    SignedBeaconBlockHeader { message: header, signature: vec![0u8; SIGNATURE_BYTES_LEN] }
}

#[test]
fn execution_proof_test_execution_proof_creation() {
    let subnet_id = ExecutionProofSubnetId::new(0).unwrap();
    let block_hash = Hash256::zero();
    let signed_header = create_test_header(42);
    let proof_data = vec![1, 2, 3, 4];

    let proof = ExecutionProof::new(subnet_id, block_hash, signed_header.clone(), proof_data.clone());
    assert!(proof.is_ok());

    let proof = proof.unwrap();
    assert_eq!(proof.subnet_id, subnet_id);
    assert_eq!(proof.block_hash, block_hash);
    assert_eq!(proof.slot(), 42);
    assert_eq!(proof.block_root(), signed_header.message.tree_hash_root());
    assert_eq!(proof.proof_data_size(), 4);
}

#[test]
fn test_execution_proof_too_large() {
    let subnet_id = ExecutionProofSubnetId::new(0).unwrap();
    let block_hash = Hash256::zero();
    let signed_header = create_test_header(0);
    let proof_data = vec![0u8; MAX_PROOF_DATA_BYTES + 1];

    let result = ExecutionProof::new(subnet_id, block_hash, signed_header, proof_data);
    assert!(result.is_err());
    assert!(result.unwrap_err().contains("Failed to create proof data"));
}

#[test]
fn test_execution_proof_max_size() {
    let subnet_id = ExecutionProofSubnetId::new(0).unwrap();
    let block_hash = Hash256::zero();
    let signed_header = create_test_header(0);
    let proof_data = vec![0u8; MAX_PROOF_DATA_BYTES];

    let result = ExecutionProof::new(subnet_id, block_hash, signed_header, proof_data);
    assert!(result.is_ok());
    assert_eq!(result.unwrap().proof_data_size(), MAX_PROOF_DATA_BYTES);
}

#[test]
fn test_is_for_block() {
    let subnet_id = ExecutionProofSubnetId::new(0).unwrap();
    let block_hash = Hash256::from_low_u64_be(42);
    let signed_header = create_test_header(0);
    let proof_data = vec![1, 2, 3];

    let proof = ExecutionProof::new(subnet_id, block_hash, signed_header, proof_data).unwrap();

    assert!(proof.is_for_block(&block_hash));
    assert!(!proof.is_for_block(&Hash256::zero()));
}

#[test]
fn test_is_from_subnet() {
    let subnet_id_0 = ExecutionProofSubnetId::new(0).unwrap();
    let subnet_id_1 = ExecutionProofSubnetId::new(1).unwrap();
    let block_hash = Hash256::zero();
    let signed_header = create_test_header(0);
    let proof_data = vec![1, 2, 3];

    let proof = ExecutionProof::new(subnet_id_0, block_hash, signed_header, proof_data).unwrap();

    assert!(proof.is_from_subnet(subnet_id_0));
    assert!(!proof.is_from_subnet(subnet_id_1));
}

#[test]
fn test_slot_and_block_root_methods() {
    let subnet_id = ExecutionProofSubnetId::new(0).unwrap();
    let block_hash = Hash256::zero();
    let signed_header = create_test_header(123);
    let proof_data = vec![1, 2, 3];

    let proof = ExecutionProof::new(subnet_id, block_hash, signed_header.clone(), proof_data).unwrap();

    assert_eq!(proof.slot(), 123);
    assert_eq!(proof.block_root(), signed_header.message.tree_hash_root());
    assert_eq!(proof.proposer_index(), 0);
}

#[test]
fn header_root_is_the_merkle_root_of_its_five_leaves() {
    let header = BeaconBlockHeader {
        slot: 0x0102,
        proposer_index: 7,
        parent_root: Hash256::repeat_byte(0xaa),
        state_root: Hash256::zero(),
        body_root: Hash256::from_low_u64_be(9),
    };
    let mut leaves = vec![0u8; 160];
    leaves[0] = 0x02;
    leaves[1] = 0x01;
    leaves[32] = 7;
    for b in &mut leaves[64..96] {
        *b = 0xaa;
    }
    leaves[159] = 9;
    assert_eq!(header.leaves(), leaves);
    let expected = tree_hash::merkle_root(&leaves, 5);
    assert_eq!(header.tree_hash_root(), Hash256::from_slice(expected.as_slice()));
    assert_ne!(header.tree_hash_root(), Hash256::from_slice(&leaves[0..32]));
}

#[test]
fn zero_header_root_is_the_zero_tree_of_depth_three() {
    let header = create_test_header(0).message;
    let expected = tree_hash::merkle_root(&[0u8; 256], 8);
    assert_eq!(header.tree_hash_root(), Hash256::from_slice(expected.as_slice()));
}

#[test]
fn proof_for_testing_has_a_minimal_header() {
    let subnet_id = ExecutionProofSubnetId::new(3).unwrap();
    let root = Hash256::from_low_u64_be(77);
    let proof = ExecutionProof::new_for_testing(subnet_id, Hash256::zero(), root, vec![5]).unwrap();
    assert_eq!(proof.slot(), 0);
    assert_eq!(proof.proposer_index(), 0);
    assert_eq!(proof.signed_block_header.message.body_root, root);
    assert_eq!(proof.signed_block_header.signature.len(), SIGNATURE_BYTES_LEN);
}
