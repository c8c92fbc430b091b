use lighthouse_proofs::keyed::VecSet;
use lighthouse_proofs::network::peer::PeerId;
use lighthouse_proofs::network::proof_peer_selector::{select_multiple_proof_peers, select_proof_peer};
use lighthouse_proofs::network::proof_request_tracker::{ProofRequest, ProofRequestTracker};
use lighthouse_proofs::primitives::Hash256;
use lighthouse_proofs::types::SubnetId as ExecutionProofSubnetId;

fn test_peer_id(n: u8) -> PeerId {
    PeerId(n as u64)
}

#[test]
fn test_empty_exclusion_set() {
    let excluded_peers: VecSet<PeerId> = VecSet::new();
    let subnet_ids = vec![ExecutionProofSubnetId::new(0).unwrap()];
    assert!(excluded_peers.is_empty());
    assert_eq!(subnet_ids.len(), 1);

    let connected = vec![test_peer_id(1), test_peer_id(2)];
    let chosen = select_proof_peer(&connected, &subnet_ids, &excluded_peers).unwrap();
    assert!(connected.contains(&chosen));
}

#[test]
fn test_multiple_peer_selection_limit() {
    let excluded_peers: VecSet<PeerId> = VecSet::new();
    let subnet_ids = vec![ExecutionProofSubnetId::new(0).unwrap()];
    let count = 3;
    assert!(count > 0);

    let connected: Vec<PeerId> = (1..=5).map(test_peer_id).collect();
    let chosen = select_multiple_proof_peers(&connected, &subnet_ids, &excluded_peers, count);
    assert_eq!(chosen.len(), count);
    for p in &chosen {
        assert!(connected.contains(p));
    }
}

#[test]
fn selection_skips_excluded_peers() {
    let mut excluded: VecSet<PeerId> = VecSet::new();
    excluded.insert(test_peer_id(1));
    excluded.insert(test_peer_id(3));
    let connected = vec![test_peer_id(1), test_peer_id(2), test_peer_id(3)];
    let subnets = vec![ExecutionProofSubnetId::new(2).unwrap()];
    for _ in 0..20 {
        assert_eq!(select_proof_peer(&connected, &subnets, &excluded), Some(test_peer_id(2)));
    }
    let many = select_multiple_proof_peers(&connected, &subnets, &excluded, 10);
    assert_eq!(many, vec![test_peer_id(2)]);

    excluded.insert(test_peer_id(2));
    assert_eq!(select_proof_peer(&connected, &subnets, &excluded), None);
    assert!(select_multiple_proof_peers(&connected, &subnets, &excluded, 10).is_empty());
}

#[test]
fn multiple_selection_has_no_repeats() {
    let excluded: VecSet<PeerId> = VecSet::new();
    let connected: Vec<PeerId> = (1..=8).map(test_peer_id).collect();
    let mut chosen = select_multiple_proof_peers(&connected, &[], &excluded, 8);
    chosen.sort_by_key(|p| p.0);
    assert_eq!(chosen, connected);
}

#[test]
fn test_insert_and_tracking() {
    let mut tracker = ProofRequestTracker::new();
    let block_root = Hash256::repeat_byte(1);
    let subnet_id = ExecutionProofSubnetId::new(0).unwrap();
    let peer_id = test_peer_id(1);

    assert!(!tracker.is_tracking(&block_root, subnet_id));

    tracker.insert_request(block_root, &[subnet_id], peer_id);

    assert!(tracker.is_tracking(&block_root, subnet_id));
}

#[test]
fn test_remove_request() {
    let mut tracker = ProofRequestTracker::new();
    let block_root = Hash256::repeat_byte(1);
    let subnet_id = ExecutionProofSubnetId::new(0).unwrap();
    let peer_id = test_peer_id(1);

    tracker.insert_request(block_root, &[subnet_id], peer_id);
    assert!(tracker.is_tracking(&block_root, subnet_id));

    tracker.remove_request(&block_root, subnet_id);
    assert!(!tracker.is_tracking(&block_root, subnet_id));
}

#[test]
fn test_get_asked_peers() {
    let mut tracker = ProofRequestTracker::new();
    let block_root = Hash256::repeat_byte(1);
    let subnet_id = ExecutionProofSubnetId::new(0).unwrap();
    let peer1 = test_peer_id(1);
    let peer2 = test_peer_id(2);

    tracker.insert_request(block_root, &[subnet_id], peer1);
    tracker.insert_request(block_root, &[subnet_id], peer2);

    let asked_peers = tracker.get_asked_peers(&block_root, subnet_id);
    assert_eq!(asked_peers.len(), 2);
    assert!(asked_peers.contains(&peer1));
    assert!(asked_peers.contains(&peer2));
}

#[test]
fn test_concurrent_peer_limit() {
    let mut tracker = ProofRequestTracker::new();
    let block_root = Hash256::repeat_byte(1);
    let subnet_id = ExecutionProofSubnetId::new(0).unwrap();

    assert!(tracker.can_request_another_peer(&block_root, subnet_id));

    tracker.insert_request(block_root, &[subnet_id], test_peer_id(1));
    assert!(tracker.can_request_another_peer(&block_root, subnet_id));

    tracker.insert_request(block_root, &[subnet_id], test_peer_id(2));
    assert!(!tracker.can_request_another_peer(&block_root, subnet_id));
}

#[test]
fn test_retry_logic_not_exceeded() {
    let mut tracker = ProofRequestTracker::new();
    let block_root = Hash256::repeat_byte(1);
    let subnet_id = ExecutionProofSubnetId::new(0).unwrap();

    tracker.insert_request(block_root, &[subnet_id], test_peer_id(1));

    let retry_subnets = tracker.get_retry_subnets(&block_root);
    assert!(retry_subnets.is_empty(), "Should not retry while request is active");
}

#[test]
fn test_multiple_subnets_tracking() {
    let mut tracker = ProofRequestTracker::new();
    let block_root = Hash256::repeat_byte(1);
    let subnet_id_0 = ExecutionProofSubnetId::new(0).unwrap();
    let subnet_id_1 = ExecutionProofSubnetId::new(1).unwrap();
    let peer_id = test_peer_id(1);

    tracker.insert_request(block_root, &[subnet_id_0, subnet_id_1], peer_id);

    assert!(tracker.is_tracking(&block_root, subnet_id_0));
    assert!(tracker.is_tracking(&block_root, subnet_id_1));

    tracker.remove_request(&block_root, subnet_id_0);

    assert!(!tracker.is_tracking(&block_root, subnet_id_0));
    assert!(tracker.is_tracking(&block_root, subnet_id_1));
}

#[test]
fn test_prune_old_requests() {
    let mut tracker = ProofRequestTracker::new();
    let block_root = Hash256::repeat_byte(1);
    let subnet_id = ExecutionProofSubnetId::new(0).unwrap();

    tracker.insert_request(block_root, &[subnet_id], test_peer_id(1));
    assert!(tracker.is_tracking(&block_root, subnet_id));

    tracker.prune_old_requests();
    assert!(tracker.is_tracking(&block_root, subnet_id));
}

#[test]
fn test_different_blocks_isolated() {
    let mut tracker = ProofRequestTracker::new();
    let block_root_1 = Hash256::repeat_byte(1);
    let block_root_2 = Hash256::repeat_byte(2);
    let subnet_id = ExecutionProofSubnetId::new(0).unwrap();
    let peer_id = test_peer_id(1);

    tracker.insert_request(block_root_1, &[subnet_id], peer_id);
    tracker.insert_request(block_root_2, &[subnet_id], peer_id);

    assert!(tracker.is_tracking(&block_root_1, subnet_id));
    assert!(tracker.is_tracking(&block_root_2, subnet_id));

    tracker.remove_request(&block_root_1, subnet_id);

    assert!(!tracker.is_tracking(&block_root_1, subnet_id));
    assert!(tracker.is_tracking(&block_root_2, subnet_id));
}

#[test]
fn test_asked_peers_empty_for_untracked() {
    let tracker = ProofRequestTracker::new();
    let block_root = Hash256::repeat_byte(1);
    let subnet_id = ExecutionProofSubnetId::new(0).unwrap();

    let asked_peers = tracker.get_asked_peers(&block_root, subnet_id);
    assert!(asked_peers.is_empty());
}

#[test]
fn asking_the_same_peer_twice_counts_once() {
    let mut tracker = ProofRequestTracker::new();
    let block_root = Hash256::repeat_byte(4);
    let subnet_id = ExecutionProofSubnetId::new(5).unwrap();
    tracker.insert_request(block_root, &[subnet_id], test_peer_id(9));
    tracker.insert_request(block_root, &[subnet_id], test_peer_id(9));
    assert_eq!(tracker.get_asked_peers(&block_root, subnet_id).len(), 1);
}

#[test]
fn fresh_requests_are_active_and_not_timed_out() {
    let mut request = ProofRequest::new();
    assert_eq!(request.active_requests(), 0);
    assert!(request.can_request_from_another_peer());
    request.add_request(test_peer_id(1));
    request.add_request(test_peer_id(2));
    assert_eq!(request.active_requests(), 2);
    assert!(request.timed_out_peers().is_empty());
    assert!(!request.can_request_from_another_peer());
}
