use std::time::Instant;

use lighthouse_proofs::consensus::{ExecutionProof, ProofSubnetId};
use lighthouse_proofs::execution_proof_cache::{
    extract_payload_hash, CachedProof, ExecutionProofCache, ProofConfig, ProofLru,
    ProofValidationResult,
};
use lighthouse_proofs::primitives::Hash256;
use lighthouse_proofs::types::SubnetId;

fn proof_for(hash: Hash256) -> ExecutionProof {
    let mut data = hash.to_bytes();
    data.extend_from_slice(&[1, 2, 3]);
    ExecutionProof::new_for_testing(SubnetId::new(0).unwrap(), hash, Hash256::zero(), data).unwrap()
}

fn cached(hash: Hash256) -> CachedProof {
    CachedProof { proof: proof_for(hash), subnet_id: ProofSubnetId::new(0), received_at: Instant::now() }
}

#[test]
fn lru_keeps_at_most_its_capacity_and_drops_the_least_recent() {
    let mut lru = ProofLru::new(2);
    let a = Hash256::from_low_u64_be(1);
    let b = Hash256::from_low_u64_be(2);
    let c = Hash256::from_low_u64_be(3);
    lru.put(a, cached(a));
    lru.put(b, cached(b));
    assert!(lru.get(&a).is_some());
    lru.put(c, cached(c));
    let mut held = lru.hashes();
    held.sort();
    assert_eq!(held, vec![a, c]);
    assert!(lru.get(&b).is_none());
    assert_eq!(lru.get(&c).unwrap().proof.block_hash, c);
}

#[test]
fn lru_put_replaces_and_remove_forgets() {
    let mut lru = ProofLru::new(3);
    let a = Hash256::from_low_u64_be(10);
    lru.put(a, cached(a));
    let mut again = cached(a);
    again.subnet_id = ProofSubnetId::new(2);
    lru.put(a, again);
    assert_eq!(lru.hashes(), vec![a]);
    assert_eq!(lru.get(&a).unwrap().subnet_id, ProofSubnetId::new(2));
    assert!(lru.received_at(&a).is_some());
    lru.remove(&a);
    assert!(lru.hashes().is_empty());
    assert!(lru.received_at(&a).is_none());
}

#[test]
fn payload_hash_is_read_from_the_first_bytes() {
    let h = Hash256::from_low_u64_be(0xfeed);
    let mut data = h.to_bytes();
    data.push(9);
    assert_eq!(extract_payload_hash(&data, ProofSubnetId::new(1)), Ok(h));
    assert_eq!(
        extract_payload_hash(&data[..31], ProofSubnetId::new(0)),
        Err("SP1 proof too short for payload hash extraction".to_string())
    );
    assert_eq!(
        extract_payload_hash(&data[..10], ProofSubnetId::new(2)),
        Err("Execution witness too short for payload hash extraction".to_string())
    );
    assert_eq!(
        extract_payload_hash(&data, ProofSubnetId::new(5)),
        Err("Unsupported proof type".to_string())
    );
}

#[test]
fn a_waiting_payload_is_answered_when_its_proof_arrives() {
    let mut cache: ExecutionProofCache<u32> = ExecutionProofCache::new();
    let h = Hash256::from_low_u64_be(77);
    cache.add_pending_validation(h, Hash256::zero(), 5);
    match cache.cache_proof(proof_for(h), ProofSubnetId::new(0)) {
        Some((5, ProofValidationResult::Error { error })) => {
            assert_eq!(error, "Proof verification not implemented")
        }
        other => panic!("unexpected {:?}", other.map(|x| x.0)),
    }
    assert!(cache.get_proof(h).is_some());
    assert!(cache.cache_proof(proof_for(h), ProofSubnetId::new(0)).is_none());
    assert!(cache.cleanup_expired().is_empty());
}

#[test]
fn an_unreadable_proof_is_dropped() {
    let mut cache: ExecutionProofCache<u32> = ExecutionProofCache::new();
    let short = ExecutionProof::new_for_testing(
        SubnetId::new(0).unwrap(),
        Hash256::zero(),
        Hash256::zero(),
        vec![1, 2, 3],
    )
    .unwrap();
    assert!(cache.cache_proof(short, ProofSubnetId::new(0)).is_none());
    assert!(cache.get_proof(Hash256::from_slice(&[1u8; 32])).is_none());
}

#[test]
fn test_proof_subnet_mappings() {
    assert_eq!(ProofSubnetId::sp1(), ProofSubnetId::new(0));
    assert_eq!(ProofSubnetId::risc0(), ProofSubnetId::new(1));
    assert_eq!(ProofSubnetId::execution_witness(), ProofSubnetId::new(2));

    let sp1_subnet: u64 = ProofSubnetId::sp1().into();
    assert_eq!(sp1_subnet, 0);

    let risc0_subnet: u64 = ProofSubnetId::risc0().into();
    assert_eq!(risc0_subnet, 1);
}

#[test]
fn test_execution_proof_config_defaults() {
    let config = ProofConfig::default();
    assert_eq!(config.enabled, false);
    assert_eq!(config.optimistic_acceptance, true);
    assert_eq!(config.fallback_to_execution, true);
    assert_eq!(config.verification_timeout_ms, 5000);
    assert_eq!(config.max_cache_size, 1000);
    assert_eq!(config.cache_ttl_seconds, 300);
}
