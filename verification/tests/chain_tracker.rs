use lighthouse_proofs::chain::{ProvenBlockInfo, ProvenChainTracker};
use lighthouse_proofs::primitives::Hash256;
use lighthouse_proofs::types::{ExecutionProof, SubnetId};

#[test]
fn test_proven_chain_tracker() {
    let mut tracker = ProvenChainTracker::new();

    let beacon_root = Hash256::from_low_u64_be(0xbeac);
    let exec_hash = Hash256::from_low_u64_be(0xe1ec);
    let block_info = ProvenBlockInfo::new(beacon_root, exec_hash, 100, Hash256::from_low_u64_be(7), 3);

    tracker.mark_block_proven(block_info.clone());

    assert!(tracker.is_block_proven(&beacon_root));
    assert_eq!(tracker.get_proven_block(&beacon_root).unwrap().slot, 100);

    let beacon_blocks = tracker.get_beacon_blocks_for_execution(&exec_hash);
    assert_eq!(beacon_blocks.len(), 1);
    assert_eq!(beacon_blocks[0], beacon_root);

    tracker.update_state(Some((beacon_root, 100)), None);
    let state = tracker.get_state();
    assert_eq!(state.proven_head, Some((beacon_root, 100)));
    assert_eq!(state.chain_length, 1);
}

#[test]
fn test_prune_old_blocks() {
    let mut tracker = ProvenChainTracker::new();

    for i in 0..5u64 {
        let block_info = ProvenBlockInfo::new(
            Hash256::from_low_u64_be(1000 + i),
            Hash256::from_low_u64_be(2000 + i),
            i * 10,
            Hash256::from_low_u64_be(3000 + i),
            1,
        );
        tracker.mark_block_proven(block_info);
    }

    assert_eq!(tracker.get_proven_chain().len(), 5);

    let pruned = tracker.prune_old_blocks(25);
    assert_eq!(pruned, 3);
    assert_eq!(tracker.get_proven_chain().len(), 2);
}

#[test]
fn pruning_also_forgets_the_execution_mapping() {
    let mut tracker = ProvenChainTracker::new();
    let exec = Hash256::from_low_u64_be(55);
    let old = Hash256::from_low_u64_be(1);
    let new = Hash256::from_low_u64_be(2);
    tracker.mark_block_proven(ProvenBlockInfo::new(old, exec, 5, Hash256::zero(), 1));
    tracker.mark_block_proven(ProvenBlockInfo::new(new, exec, 50, Hash256::zero(), 1));
    assert_eq!(tracker.get_beacon_blocks_for_execution(&exec).len(), 2);
    assert_eq!(tracker.prune_old_blocks(10), 1);
    assert!(!tracker.is_block_proven(&old));
    assert_eq!(tracker.get_beacon_blocks_for_execution(&exec), vec![new]);
}

#[test]
fn network_test_execution_proof_creation() {
    let block_hash = Hash256::from_low_u64_be(0x99);
    let subnet_id = SubnetId::new(1).unwrap();
    let proof_data = vec![1, 2, 3, 4];

    let proof = ExecutionProof::new_with_current_timestamp(block_hash, subnet_id, 1, proof_data.clone());

    assert_eq!(proof.block_hash, block_hash);
    assert_eq!(proof.subnet_id, subnet_id);
    assert_eq!(proof.version, 1);
    assert_eq!(proof.proof_data, proof_data);
    assert!(proof.timestamp > 0);
}

#[test]
fn test_structural_validation() {
    let block_hash = Hash256::from_low_u64_be(0x98);
    let subnet_id = SubnetId::new(0).unwrap();

    let valid_proof = ExecutionProof::new(block_hash, subnet_id, 1, vec![1], 100);
    assert!(valid_proof.is_structurally_valid());

    let invalid_proof1 = ExecutionProof::new(block_hash, subnet_id, 1, vec![], 100);
    assert!(!invalid_proof1.is_structurally_valid());

    let invalid_proof2 = ExecutionProof::new(block_hash, subnet_id, 0, vec![1], 100);
    assert!(!invalid_proof2.is_structurally_valid());
}
