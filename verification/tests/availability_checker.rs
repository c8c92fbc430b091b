use lighthouse_proofs::blocks::{
    AvailabilityPendingExecutedBlock, BlockImportData, KzgVerifiedBlob,
    KzgVerifiedCustodyDataColumn, PayloadVerificationOutcome, PayloadVerificationStatus,
    SignedBeaconBlock,
};
use lighthouse_proofs::data_availability_checker::availability::Availability;
use lighthouse_proofs::data_availability_checker::checker::{
    DataAvailabilityChecker, MAX_AVAILABILITY_STATES,
};
use lighthouse_proofs::data_availability_checker::error::AvailabilityCheckError;
use lighthouse_proofs::primitives::{ChainSpec, Hash256, KzgCommitment};

fn spec() -> ChainSpec {
    ChainSpec {
        deneb_fork_epoch: Some(0),
        peer_das_epoch: None,
        max_blobs_per_block: 6,
        number_of_columns: 128,
        min_epochs_for_blob_sidecars_requests: 4096,
    }
}

fn blob(root: Hash256, index: u64) -> KzgVerifiedBlob {
    KzgVerifiedBlob {
        block_root: root,
        index,
        kzg_commitment: KzgCommitment { hi: index as u128, mid: 1, lo: 2 },
        slot: 3,
        seen_timestamp: 0,
    }
}

fn column(root: Hash256, index: u64) -> KzgVerifiedCustodyDataColumn {
    KzgVerifiedCustodyDataColumn {
        block_root: root,
        index,
        kzg_commitment: KzgCommitment { hi: 0, mid: index as u128, lo: 0 },
        slot: 3,
    }
}

fn pending_block(root: Hash256, blobs: u128) -> AvailabilityPendingExecutedBlock {
    AvailabilityPendingExecutedBlock {
        block: SignedBeaconBlock {
            slot: 64,
            blob_kzg_commitments: (0..blobs).map(|i| KzgCommitment { hi: i, mid: 1, lo: 2 }).collect(),
        },
        import_data: BlockImportData { block_root: root },
        payload_verification_outcome: PayloadVerificationOutcome {
            payload_verification_status: PayloadVerificationStatus::Verified,
            is_valid_merge_transition_block: false,
        },
    }
}

#[test]
fn checker_never_holds_more_than_its_state_limit() {
    let mut checker = DataAvailabilityChecker::new(8, spec()).unwrap();
    for i in 0..(MAX_AVAILABILITY_STATES as u64 + 50) {
        let root = Hash256::from_low_u64_be(i + 1);
        let r = checker.put_kzg_verified_blobs(root, vec![blob(root, 0)]);
        assert!(matches!(r, Ok(Availability::MissingComponents(h)) if h == root));
        assert!(checker.block_cache_size() <= MAX_AVAILABILITY_STATES);
    }
    assert_eq!(checker.block_cache_size(), MAX_AVAILABILITY_STATES);
}

#[test]
fn rpc_blobs_need_a_clock_and_valid_kzg() {
    let mut checker = DataAvailabilityChecker::new(8, spec()).unwrap();
    let root = Hash256::from_low_u64_be(42);
    let blobs = vec![Some(blob(root, 0)), None, Some(blob(root, 2))];

    match checker.put_rpc_blobs(root, blobs.clone(), None, Ok(())) {
        Err(AvailabilityCheckError::SlotClockError) => {}
        other => panic!("unexpected {:?}", other),
    }
    match checker.put_rpc_blobs(root, blobs.clone(), Some(9), Err("bad proof".to_string())) {
        Err(AvailabilityCheckError::InvalidBlobs(m)) => assert_eq!(m, "bad proof"),
        other => panic!("unexpected {:?}", other),
    }
    assert_eq!(checker.block_cache_size(), 0);

    match checker.put_rpc_blobs(root, blobs, Some(9), Ok(())) {
        Ok(Availability::MissingComponents(h)) => assert_eq!(h, root),
        other => panic!("unexpected {:?}", other),
    }
    assert_eq!(checker.cached_blob_indexes(&root), None);
    assert!(checker.get_execution_valid_block(&root).is_none());

    let r = checker.put_pending_executed_block(pending_block(root, 3));
    assert!(matches!(r, Ok(Availability::MissingComponents(h)) if h == root));
    let mut held = checker.cached_blob_indexes(&root).unwrap();
    held.sort();
    assert_eq!(held, vec![0, 2]);
    let block = checker.get_execution_valid_block(&root).unwrap();
    assert_eq!(block.slot, 64);
    assert_eq!(block.blob_kzg_commitments.len(), 3);
}

#[test]
fn rpc_columns_need_valid_kzg() {
    let mut checker = DataAvailabilityChecker::new(8, spec()).unwrap();
    let root = Hash256::from_low_u64_be(7);
    match checker.put_rpc_custody_columns(root, vec![column(root, 1)], Err("batch".to_string())) {
        Err(AvailabilityCheckError::InvalidColumn(m)) => assert_eq!(m, "batch"),
        other => panic!("unexpected {:?}", other),
    }
    assert_eq!(checker.block_cache_size(), 0);
    let r = checker.put_rpc_custody_columns(root, vec![column(root, 1), column(root, 4)], Ok(()));
    assert!(matches!(r, Ok(Availability::MissingComponents(h)) if h == root));
    assert!(checker.is_data_column_cached(&root, &column(root, 4)));
    assert!(!checker.is_data_column_cached(&root, &column(root, 5)));
}

#[test]
fn removing_pending_components_forgets_the_root() {
    let mut checker = DataAvailabilityChecker::new(8, spec()).unwrap();
    let root = Hash256::from_low_u64_be(3);
    checker.put_gossip_verified_blobs(root, vec![blob(root, 1)]).unwrap();
    assert_eq!(checker.cached_blob_indexes(&root), None);
    checker.put_pending_executed_block(pending_block(root, 2)).unwrap();
    assert_eq!(checker.cached_blob_indexes(&root), Some(vec![1]));
    assert_eq!(checker.cached_data_column_indexes(&root), Some(vec![]));
    checker.remove_pending_components(root);
    assert_eq!(checker.cached_blob_indexes(&root), None);
    assert!(checker.get_execution_valid_block(&root).is_none());
    assert_eq!(checker.block_cache_size(), 0);
}

#[test]
fn empty_component_lists_change_nothing() {
    let mut checker = DataAvailabilityChecker::new(8, spec()).unwrap();
    let root = Hash256::from_low_u64_be(11);
    let r = checker.put_gossip_verified_data_columns(root, vec![]);
    assert!(matches!(r, Ok(Availability::MissingComponents(h)) if h == root));
    assert_eq!(checker.block_cache_size(), 0);
}
