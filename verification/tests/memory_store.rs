use lighthouse_proofs::error::Error;
use lighthouse_proofs::primitives::Hash256;
use lighthouse_proofs::store::memory::MemoryProofStore;
use lighthouse_proofs::types::{ExecutionPayloadProof, ProofId};

#[test]
fn test_memory_store_basic_operations() {
    let mut store = MemoryProofStore::new(10);
    let block_hash = Hash256::from_low_u64_be(0x51);
    let proof_id = ProofId::custom(1);

    let proof = ExecutionPayloadProof::new_v1(block_hash, proof_id, vec![1, 2, 3]);
    assert!(store.store_proof(proof.clone()).is_ok());

    assert!(store.has_valid_proof(&block_hash));
    assert!(store.has_valid_proof_for_id(&block_hash, proof_id));
    assert_eq!(store.len(), 1);

    let retrieved = store.get_proof(&block_hash, proof_id);
    assert!(retrieved.is_some());
    assert_eq!(retrieved.unwrap().proof_data, vec![1, 2, 3]);
}

#[test]
fn test_memory_store_lru_eviction() {
    let mut store = MemoryProofStore::new(2);

    let mut proof1 = ExecutionPayloadProof::new_v1(
        Hash256::from_low_u64_be(1),
        ProofId::execution_witness(),
        vec![1],
    );
    proof1.timestamp = 100;

    let mut proof2 =
        ExecutionPayloadProof::new_v1(Hash256::from_low_u64_be(2), ProofId::custom(1), vec![2]);
    proof2.timestamp = 200;

    let proof3 =
        ExecutionPayloadProof::new_v1(Hash256::from_low_u64_be(3), ProofId::custom(2), vec![3]);

    assert!(store.store_validated_proof(proof1.clone()).is_ok());
    assert!(store.store_validated_proof(proof2.clone()).is_ok());
    assert!(store.store_validated_proof(proof3.clone()).is_ok());

    assert_eq!(store.len(), 2);
    assert!(!store.has_valid_proof(&proof1.block_hash));
    assert!(store.has_valid_proof(&proof2.block_hash));
    assert!(store.has_valid_proof(&proof3.block_hash));

    let metrics = store.metrics();
    assert_eq!(metrics.evictions, 1);
}

#[test]
fn refused_proofs_give_invalid_proof_errors() {
    let mut store = MemoryProofStore::new(4);
    let hash = Hash256::from_low_u64_be(0x77);

    let empty = ExecutionPayloadProof::new_v1(hash, ProofId::custom(3), vec![]);
    match store.store_proof(empty) {
        Err(Error::InvalidProof { block_hash, subnet_id, reason }) => {
            assert_eq!(block_hash, hash);
            assert_eq!(subnet_id, 3);
            assert_eq!(reason, "Empty proof data");
        }
        other => panic!("unexpected {:?}", other),
    }

    let v2 = ExecutionPayloadProof::new(hash, ProofId::custom(3), 2, vec![1]);
    match store.store_proof(v2) {
        Err(Error::InvalidProof { reason, .. }) => assert_eq!(reason, "Unsupported version: 2"),
        other => panic!("unexpected {:?}", other),
    }
    assert!(store.is_empty());
}

#[test]
fn proofs_are_counted_per_payload_and_pruned_by_age() {
    let mut store = MemoryProofStore::new(10);
    let a = Hash256::from_low_u64_be(0xa);
    let b = Hash256::from_low_u64_be(0xb);
    for (hash, id, ts) in [(a, 0u64, 10u64), (a, 1, 20), (b, 1, 30)] {
        let mut p = ExecutionPayloadProof::new_v1(hash, ProofId::custom(id), vec![id as u8 + 1]);
        p.timestamp = ts;
        store.store_validated_proof(p).unwrap();
    }
    assert_eq!(store.proof_count_for_payload(&a), 2);
    assert_eq!(store.get_proofs(&a).len(), 2);
    assert!(store.has_sufficient_proofs(&a, 2));
    assert!(!store.has_sufficient_proofs(&b, 2));
    assert_eq!(store.unique_payload_count(), 2);

    assert_eq!(store.prune_old_proofs(20).unwrap(), 1);
    assert_eq!(store.len(), 2);
    assert!(!store.has_valid_proof_for_id(&a, ProofId::custom(0)));
    assert!(store.has_valid_proof_for_id(&a, ProofId::custom(1)));

    assert_eq!(store.cleanup_finalized_blocks(vec![a]), 0);
    store.clear().unwrap();
    assert!(store.is_empty());
    assert!(store.get_proof(&b, ProofId::custom(1)).is_none());
}

#[test]
fn metrics_count_proofs_by_type() {
    let mut store = MemoryProofStore::new(10);
    let h = Hash256::from_low_u64_be(5);
    store.store_proof(ExecutionPayloadProof::new_v1(h, ProofId::execution_witness(), vec![1])).unwrap();
    store.store_proof(ExecutionPayloadProof::new_v1(h, ProofId::custom(4), vec![1])).unwrap();
    store.store_proof(ExecutionPayloadProof::new_v1(Hash256::zero(), ProofId::custom(9), vec![1])).unwrap();
    let m = store.metrics();
    assert_eq!(m.total_proofs, 3);
    assert_eq!(m.unique_payloads, 2);
    assert_eq!(m.capacity, 10);
    assert_eq!(m.successful_stores, 3);
    assert_eq!(m.evictions, 0);
    let mut by_type = m.proofs_by_type.clone();
    by_type.sort();
    assert_eq!(
        by_type,
        vec![("custom_v1".to_string(), 2), ("execution_witness_v1".to_string(), 1)]
    );
}
