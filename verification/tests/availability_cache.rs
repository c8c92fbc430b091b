use lighthouse_proofs::blocks::{
    AvailabilityPendingExecutedBlock, BlobIdentifier, BlockImportData,
    DietAvailabilityPendingExecutedBlock, KzgVerifiedBlob,
    KzgVerifiedCustodyDataColumn, PayloadVerificationOutcome, PayloadVerificationStatus,
    SignedBeaconBlock,
};
use lighthouse_proofs::data_availability_checker::availability::Availability;
use lighthouse_proofs::data_availability_checker::error::AvailabilityCheckError;
use lighthouse_proofs::data_availability_checker_new::state_machine_cache::{
    DataAvailabilityCheckerInner, ReconstructColumnsDecision,
};
use lighthouse_proofs::primitives::{ChainSpec, Hash256, KzgCommitment};

fn spec() -> ChainSpec {
    ChainSpec {
        deneb_fork_epoch: Some(0),
        peer_das_epoch: None,
        max_blobs_per_block: 6,
        number_of_columns: 128,
        min_epochs_for_blob_sidecars_requests: 4096,
    }
}

fn blob(root: Hash256, index: u64) -> KzgVerifiedBlob {
    KzgVerifiedBlob {
        block_root: root,
        index,
        kzg_commitment: KzgCommitment { hi: 1, mid: index as u128, lo: 3 },
        slot: 64,
        seen_timestamp: 5,
    }
}

fn restore(
    d: DietAvailabilityPendingExecutedBlock,
) -> Result<AvailabilityPendingExecutedBlock, AvailabilityCheckError> {
    Ok(AvailabilityPendingExecutedBlock {
        block: d.block,
        import_data: d.import_data,
        payload_verification_outcome: d.payload_verification_outcome,
    })
}

fn held(cache: &DataAvailabilityCheckerInner, root: Hash256, index: u64) -> bool {
    cache.peek_blob(&BlobIdentifier { block_root: root, index }).unwrap().is_some()
}

#[test]
fn blobs_are_held_until_the_block_arrives() {
    let mut cache = DataAvailabilityCheckerInner::new(4, 8, spec()).unwrap();
    let root = Hash256::from_low_u64_be(1);
    let r = cache.put_kzg_verified_blobs(root, vec![blob(root, 0), blob(root, 3)], restore);
    assert!(matches!(r, Ok(Availability::MissingComponents(h)) if h == root));
    assert!(held(&cache, root, 0));
    assert!(!held(&cache, root, 1));
    assert!(held(&cache, root, 3));
    assert_eq!(cache.block_cache_size(), 1);
}

#[test]
fn empty_blob_lists_are_refused() {
    let mut cache = DataAvailabilityCheckerInner::new(4, 8, spec()).unwrap();
    let root = Hash256::from_low_u64_be(2);
    match cache.put_kzg_verified_blobs(root, vec![], restore) {
        Err(AvailabilityCheckError::Unexpected(m)) => assert_eq!(m, "empty blobs"),
        other => panic!("unexpected {:?}", other),
    }
    assert_eq!(cache.block_cache_size(), 0);
}

#[test]
fn cache_evicts_down_to_its_capacity() {
    let mut cache = DataAvailabilityCheckerInner::new(2, 8, spec()).unwrap();
    let a = Hash256::from_low_u64_be(10);
    let b = Hash256::from_low_u64_be(11);
    let c = Hash256::from_low_u64_be(12);
    for root in [a, b, c] {
        cache.put_kzg_verified_blobs(root, vec![blob(root, 0)], restore).unwrap();
        assert!(cache.block_cache_size() <= 2);
    }
    assert_eq!(cache.block_cache_size(), 2);
    assert!(held(&cache, c, 0));
    assert!(!held(&cache, b, 0));
    assert!(held(&cache, a, 0));
}

#[test]
fn removing_pending_components_forgets_them() {
    let mut cache = DataAvailabilityCheckerInner::new(4, 8, spec()).unwrap();
    let root = Hash256::from_low_u64_be(3);
    cache.put_kzg_verified_blobs(root, vec![blob(root, 1)], restore).unwrap();
    cache.remove_pending_components(root);
    assert!(!held(&cache, root, 1));
    assert_eq!(cache.block_cache_size(), 0);
    assert!(cache.peek_data_columns(root).is_none());
}

fn peer_das_spec() -> ChainSpec {
    ChainSpec { peer_das_epoch: Some(0), ..spec() }
}

fn column(root: Hash256, index: u64) -> KzgVerifiedCustodyDataColumn {
    KzgVerifiedCustodyDataColumn {
        block_root: root,
        index,
        kzg_commitment: KzgCommitment { hi: 0, mid: index as u128, lo: 7 },
        slot: 64,
    }
}

fn pending_block(root: Hash256, blobs: u128) -> AvailabilityPendingExecutedBlock {
    AvailabilityPendingExecutedBlock {
        block: SignedBeaconBlock {
            slot: 64,
            blob_kzg_commitments: (0..blobs).map(|i| KzgCommitment { hi: i, mid: 0, lo: 0 }).collect(),
        },
        import_data: BlockImportData { block_root: root },
        payload_verification_outcome: PayloadVerificationOutcome {
            payload_verification_status: PayloadVerificationStatus::Verified,
            is_valid_merge_transition_block: false,
        },
    }
}

#[test]
fn reconstruction_is_not_started_twice() {
    let mut cache = DataAvailabilityCheckerInner::new(4, 8, peer_das_spec()).unwrap();
    let root = Hash256::from_low_u64_be(40);
    let half: Vec<_> = (0..4).map(|i| column(root, i)).collect();
    cache.put_kzg_verified_data_columns(root, half, restore).unwrap();
    assert!(matches!(
        cache.check_and_set_reconstruction_started(&root),
        ReconstructColumnsDecision::No(_)
    ));
    let _ = cache.put_pending_executed_block(pending_block(root, 2), restore);
    let first = cache.check_and_set_reconstruction_started(&root);
    let second = cache.check_and_set_reconstruction_started(&root);
    assert!(!(matches!(first, ReconstructColumnsDecision::Yes(_))
        && matches!(second, ReconstructColumnsDecision::Yes(_))));
    assert!(matches!(second, ReconstructColumnsDecision::No(_)));
    match cache.check_and_set_reconstruction_started(&Hash256::zero()) {
        ReconstructColumnsDecision::No(m) => assert_eq!(m, "block not found"),
        ReconstructColumnsDecision::Yes(_) => panic!("unknown root"),
    }
}

#[test]
fn a_block_with_its_blobs_becomes_available_once_restored() {
    let mut cache = DataAvailabilityCheckerInner::new(4, 8, spec()).unwrap();
    let root = Hash256::from_low_u64_be(50);
    let blobs = vec![blob(root, 0)];
    cache.put_kzg_verified_blobs(root, blobs, restore).unwrap();
    let mut block = pending_block(root, 1);
    block.block.blob_kzg_commitments[0] = KzgCommitment { hi: 1, mid: 0, lo: 3 };
    match cache.put_pending_executed_block(block, restore) {
        Ok(Availability::Available(b)) => {
            assert_eq!(b.import_data.block_root, root);
            assert_eq!(b.block.block.slot, 64);
        }
        other => panic!("unexpected {:?}", other),
    }
}

#[test]
fn a_failed_restore_leaves_a_failed_state() {
    let mut cache = DataAvailabilityCheckerInner::new(4, 8, spec()).unwrap();
    let root = Hash256::from_low_u64_be(51);
    cache.put_kzg_verified_blobs(root, vec![blob(root, 0)], restore).unwrap();
    let mut block = pending_block(root, 1);
    block.block.blob_kzg_commitments[0] = KzgCommitment { hi: 1, mid: 0, lo: 3 };
    let refuse = |_d: DietAvailabilityPendingExecutedBlock| -> Result<AvailabilityPendingExecutedBlock, AvailabilityCheckError> {
        Err(AvailabilityCheckError::SlotClockError)
    };
    match cache.put_pending_executed_block(block, refuse) {
        Err(AvailabilityCheckError::Unexpected(m)) => assert_eq!(
            m,
            "make_available failed: InternalError(\"Recovery failed: SlotClockError\")"
        ),
        other => panic!("unexpected {:?}", other),
    }
    assert_eq!(cache.block_cache_size(), 1);
    assert!(!held(&cache, root, 0));
}
