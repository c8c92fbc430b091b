use lighthouse_proofs::blocks::{
    BlockImportData, DietAvailabilityPendingExecutedBlock, KzgVerifiedBlob,
    PayloadVerificationOutcome, PayloadVerificationStatus, SignedBeaconBlock,
};
use lighthouse_proofs::data_availability_checker::pending_components::PendingComponents;
use lighthouse_proofs::primitives::{ChainSpec, Hash256, KzgCommitment};

fn test_spec() -> ChainSpec {
    ChainSpec {
        deneb_fork_epoch: Some(0),
        peer_das_epoch: None,
        max_blobs_per_block: 6,
        number_of_columns: 128,
        min_epochs_for_blob_sidecars_requests: 4096,
    }
}

fn commitment(seed: u128) -> KzgCommitment {
    KzgCommitment { hi: seed, mid: seed.wrapping_mul(31), lo: seed ^ 0x5eed }
}

fn diet_block(slot: u64, commitments: Vec<KzgCommitment>) -> DietAvailabilityPendingExecutedBlock {
    DietAvailabilityPendingExecutedBlock {
        block: SignedBeaconBlock { slot, blob_kzg_commitments: commitments },
        import_data: BlockImportData { block_root: Hash256::zero() },
        payload_verification_outcome: PayloadVerificationOutcome {
            payload_verification_status: PayloadVerificationStatus::Verified,
            is_valid_merge_transition_block: false,
        },
    }
}

fn create_test_diet_block() -> DietAvailabilityPendingExecutedBlock {
    diet_block(0, vec![])
}

type Setup = (
    DietAvailabilityPendingExecutedBlock,
    Vec<Option<KzgVerifiedBlob>>,
    Vec<Option<KzgVerifiedBlob>>,
    usize,
);

/// A block with three blobs out of six slots, the matching blobs, and blobs
/// with the same indices whose commitments differ.
fn pre_setup() -> Setup {
    let max_len = test_spec().max_blobs_per_block as usize;
    let num_blobs = 3usize;
    let commitments: Vec<KzgCommitment> = (0..num_blobs).map(|i| commitment(100 + i as u128)).collect();
    let slot = 10u64;
    let mut blobs = vec![None; max_len];
    let mut invalid_blobs = vec![None; max_len];
    for (i, c) in commitments.iter().enumerate() {
        blobs[i] = Some(KzgVerifiedBlob {
            block_root: Hash256::zero(),
            index: i as u64,
            kzg_commitment: *c,
            slot,
            seen_timestamp: 1,
        });
        invalid_blobs[i] = Some(KzgVerifiedBlob {
            block_root: Hash256::zero(),
            index: i as u64,
            kzg_commitment: commitment(900 + i as u128),
            slot,
            seen_timestamp: 2,
        });
    }
    (diet_block(slot, commitments), blobs, invalid_blobs, max_len)
}

fn assert_cache_consistent(cache: &PendingComponents, max_len: usize) {
    if let Some(cached_block) = cache.get_cached_block() {
        let cached_block_commitments = cached_block.get_commitments();
        for index in 0..max_len {
            let block_commitment = cached_block_commitments.get(index).copied();
            let blob_commitment_opt = cache.get_cached_blobs()[index];
            let blob_commitment = blob_commitment_opt.as_ref().map(|b| b.get_commitment());
            assert_eq!(block_commitment, blob_commitment);
        }
    } else {
        panic!("No cached block")
    }
}

fn assert_empty_blob_cache(cache: &PendingComponents) {
    for blob in cache.get_cached_blobs().iter() {
        assert!(blob.is_none());
    }
}

#[test]
fn test_enum_constructor_creates_correct_variant() {
    let spec = test_spec();
    let block_root = Hash256::zero();
    let pre_peerdas_epoch = 5u64;
    let post_deneb = PendingComponents::empty_for_epoch(block_root, pre_peerdas_epoch, &spec);
    match post_deneb {
        PendingComponents::PostDeneb { .. } => {}
        _ => panic!("Expected PostDeneb variant for pre-PeerDAS epoch"),
    }
}

#[test]
fn test_mutual_exclusion_enforced() {
    let spec = test_spec();
    let block_root = Hash256::zero();
    let epoch = 5u64;
    let post_deneb = PendingComponents::empty_for_epoch(block_root, epoch, &spec);
    let _blobs = post_deneb.get_cached_blobs();
    let columns = post_deneb.get_cached_data_columns_indices();
    assert!(columns.is_empty(), "PostDeneb variant should have no columns");
    assert!(!post_deneb.reconstruction_started(), "PostDeneb should not have reconstruction");
}

#[test]
fn test_api_compatibility() {
    let spec = test_spec();
    let block_root = Hash256::zero();
    let epoch = 5u64;
    let mut pending = PendingComponents::empty_for_epoch(block_root, epoch, &spec);

    let _block = pending.get_cached_block();
    let _blobs = pending.get_cached_blobs();
    let _columns = pending.get_cached_data_columns_indices();
    let _column = pending.get_cached_data_column(0);
    let _epoch = pending.epoch();
    let _status = pending.status_str(None);

    let diet_block = create_test_diet_block();
    pending.insert_block(diet_block);

    pending.set_reconstruction_started(true);
    assert!(!pending.reconstruction_started(), "PostDeneb should ignore reconstruction flag");
}

#[test]
fn test_memory_efficiency() {
    let spec = test_spec();
    let block_root = Hash256::zero();
    let epoch = 5u64;
    let post_deneb = PendingComponents::empty_for_epoch(block_root, epoch, &spec);
    match post_deneb {
        PendingComponents::PostDeneb { verified_blobs, .. } => {
            assert_eq!(verified_blobs.len(), spec.max_blobs_per_block(epoch) as usize);
        }
        _ => panic!("Expected PostDeneb variant"),
    }
}

#[test]
fn test_backward_compatibility_empty_method() {
    let block_root = Hash256::zero();
    let max_len = 6;
    let pending = PendingComponents::empty(block_root, max_len);
    match pending {
        PendingComponents::PostDeneb { verified_blobs, .. } => {
            assert_eq!(verified_blobs.len(), max_len);
        }
        _ => panic!("Expected PostDeneb variant from legacy empty() method"),
    }
}

#[test]
fn test_fork_specific_operations() {
    let spec = test_spec();
    let block_root = Hash256::zero();
    let epoch = 5u64;
    let mut post_deneb = PendingComponents::empty_for_epoch(block_root, epoch, &spec);

    let empty_blobs = vec![None; 6];
    post_deneb.merge_blobs(empty_blobs);

    let result = post_deneb.merge_data_columns(vec![]);
    assert!(result.is_ok(), "Should silently ignore columns for PostDeneb");

    let columns = post_deneb.get_cached_data_columns_indices();
    assert!(columns.is_empty(), "Should have no columns after trying to add them");
}

#[test]
fn test_status_string_fork_awareness() {
    let spec = test_spec();
    let block_root = Hash256::zero();
    let epoch = 5u64;
    let post_deneb = PendingComponents::empty_for_epoch(block_root, epoch, &spec);
    let status = post_deneb.status_str(None);
    assert!(status.contains("blobs"), "PostDeneb status should mention blobs");
    assert!(!status.contains("data_columns"), "PostDeneb status should not mention columns");
}

#[test]
fn status_string_counts_held_and_expected_blobs() {
    let (block, blobs, _, max_len) = pre_setup();
    let mut cache = PendingComponents::empty(Hash256::zero(), max_len);
    assert_eq!(cache.status_str(None), "block 0 blobs 0/?");
    cache.merge_blobs(blobs);
    cache.merge_block(block);
    assert_eq!(cache.status_str(None), "block 1 blobs 3/3");
}

#[test]
fn valid_block_invalid_blobs_valid_blobs() {
    let (block_commitments, blobs, random_blobs, max_len) = pre_setup();
    let block_root = Hash256::zero();
    let mut cache = PendingComponents::empty(block_root, max_len);
    cache.merge_block(block_commitments);
    cache.merge_blobs(random_blobs);
    cache.merge_blobs(blobs);

    assert_cache_consistent(&cache, max_len);
}

#[test]
fn invalid_blobs_block_valid_blobs() {
    let (block_commitments, blobs, random_blobs, max_len) = pre_setup();
    let block_root = Hash256::zero();
    let mut cache = PendingComponents::empty(block_root, max_len);
    cache.merge_blobs(random_blobs);
    cache.merge_block(block_commitments);
    cache.merge_blobs(blobs);

    assert_cache_consistent(&cache, max_len);
}

#[test]
fn invalid_blobs_valid_blobs_block() {
    let (block_commitments, blobs, random_blobs, max_len) = pre_setup();
    let block_root = Hash256::zero();
    let mut cache = PendingComponents::empty(block_root, max_len);
    cache.merge_blobs(random_blobs);
    cache.merge_blobs(blobs);
    cache.merge_block(block_commitments);

    assert_empty_blob_cache(&cache);
}

#[test]
fn block_valid_blobs_invalid_blobs() {
    let (block_commitments, blobs, random_blobs, max_len) = pre_setup();
    let block_root = Hash256::zero();
    let mut cache = PendingComponents::empty(block_root, max_len);
    cache.merge_block(block_commitments);
    cache.merge_blobs(blobs);
    cache.merge_blobs(random_blobs);

    assert_cache_consistent(&cache, max_len);
}

#[test]
fn valid_blobs_block_invalid_blobs() {
    let (block_commitments, blobs, random_blobs, max_len) = pre_setup();
    let block_root = Hash256::zero();
    let mut cache = PendingComponents::empty(block_root, max_len);
    cache.merge_blobs(blobs);
    cache.merge_block(block_commitments);
    cache.merge_blobs(random_blobs);

    assert_cache_consistent(&cache, max_len);
}

#[test]
fn valid_blobs_invalid_blobs_block() {
    let (block_commitments, blobs, random_blobs, max_len) = pre_setup();
    let block_root = Hash256::zero();
    let mut cache = PendingComponents::empty(block_root, max_len);
    cache.merge_blobs(blobs);
    cache.merge_blobs(random_blobs);
    cache.merge_block(block_commitments);

    assert_cache_consistent(&cache, max_len);
}
