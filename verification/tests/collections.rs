use lighthouse_proofs::blocks::{KzgVerifiedBlob, KzgVerifiedCustodyDataColumn};
use lighthouse_proofs::data_availability_checker_new::collections::{
    BlobCollection, ColumnCollection,
};
use lighthouse_proofs::primitives::{Hash256, KzgCommitment};

fn blob(index: u64, seed: u128) -> KzgVerifiedBlob {
    KzgVerifiedBlob {
        block_root: Hash256::zero(),
        index,
        kzg_commitment: KzgCommitment { hi: seed, mid: 0, lo: 0 },
        slot: 0,
        seen_timestamp: 0,
    }
}

fn column(index: u64, seed: u128) -> KzgVerifiedCustodyDataColumn {
    KzgVerifiedCustodyDataColumn {
        block_root: Hash256::zero(),
        index,
        kzg_commitment: KzgCommitment { hi: 0, mid: seed, lo: 0 },
        slot: 0,
    }
}

#[test]
fn blob_collection_basic_operations() {
    let mut collection = BlobCollection::new(6);

    assert_eq!(collection.blob_count(), 0);
    assert!(!collection.is_complete(3));
    assert!(collection.is_complete(0));

    let mut test_blobs = Vec::new();
    for i in 0..3 {
        test_blobs.push(blob(i as u64, 7));
    }

    collection.merge_blobs(test_blobs);

    assert_eq!(collection.blob_count(), 3);
    assert!(collection.is_complete(3));
    assert!(!collection.is_complete(4));

    assert!(collection.has_blob(0));
    assert!(collection.has_blob(1));
    assert!(collection.has_blob(2));
    assert!(!collection.has_blob(3));

    let indices = collection.cached_indices();
    assert_eq!(indices, vec![0, 1, 2]);
}

#[test]
fn blob_collection_no_duplicates() {
    let mut collection = BlobCollection::new(6);

    let kzg_blob1 = blob(0, 1);
    let kzg_blob2 = blob(0, 2);

    collection.merge_blobs(vec![kzg_blob1]);
    assert_eq!(collection.blob_count(), 1);

    collection.merge_blobs(vec![kzg_blob2]);
    assert_eq!(collection.blob_count(), 1);

    let cached_blob = collection.get_blob(0).unwrap();
    assert_eq!(cached_blob.blob_index(), kzg_blob1.blob_index());
    assert_eq!(*cached_blob, kzg_blob1);
}

#[test]
fn blob_collection_ignores_indices_past_the_limit() {
    let mut collection = BlobCollection::new(2);
    collection.merge_blobs(vec![blob(1, 1), blob(2, 1), blob(5, 1)]);
    assert_eq!(collection.blob_count(), 1);
    assert_eq!(collection.cached_indices(), vec![1]);
    assert!(!collection.has_blob(2));
}

#[test]
fn column_collection_basic_operations() {
    let mut collection = ColumnCollection::new();

    assert_eq!(collection.column_count(), 0);
    assert!(!collection.is_complete(3));
    assert!(collection.is_complete(0));

    collection.set_expected_count(10);
    assert!(!collection.can_start_reconstruction(10));

    let mut test_columns = Vec::new();
    for i in 0..6 {
        test_columns.push(column(i as u64, 3));
    }

    collection.merge_columns(test_columns);

    assert_eq!(collection.column_count(), 6);
    assert!(!collection.is_complete(10));
    assert!(collection.can_start_reconstruction(10));

    assert!(collection.has_column(0));
    assert!(collection.has_column(5));
    assert!(!collection.has_column(6));

    let indices = collection.cached_indices();
    assert_eq!(indices, vec![0, 1, 2, 3, 4, 5]);
}

#[test]
fn column_collection_no_duplicates() {
    let mut collection = ColumnCollection::new();

    let kzg_col1 = column(0, 1);
    let kzg_col2 = column(0, 2);

    collection.merge_columns(vec![kzg_col1]);
    assert_eq!(collection.column_count(), 1);

    collection.merge_columns(vec![kzg_col2]);
    assert_eq!(collection.column_count(), 1);

    let cached_column = collection.get_column(0).unwrap();
    assert_eq!(cached_column.index(), kzg_col1.index());
    assert_eq!(cached_column.kzg_commitment(), kzg_col1.kzg_commitment());
}

#[test]
fn column_indices_come_out_sorted() {
    let mut collection = ColumnCollection::new();
    collection.merge_columns(vec![column(9, 0), column(2, 0), column(5, 0), column(2, 1)]);
    assert_eq!(collection.cached_indices(), vec![2, 5, 9]);
    assert_eq!(collection.expected_count(), 0);
}

#[test]
fn collections_enforce_mutual_exclusion() {
    let blob_collection = BlobCollection::new(6);
    let column_collection = ColumnCollection::new();

    let blob_list = blob_collection.into_blob_list();
    let column_list = column_collection.into_column_list();

    assert_eq!(blob_list.len(), 0);
    assert_eq!(column_list.len(), 0);
}

#[test]
fn blob_collection_incomplete_when_more_expected_than_slots() {
    let mut collection = BlobCollection::new(2);
    collection.merge_blobs(vec![blob(0, 1), blob(1, 1)]);
    assert!(collection.is_complete(2));
    assert!(!collection.is_complete(5));
}

#[test]
fn column_collection_reconstruction_needs_at_least_half() {
    let mut collection = ColumnCollection::new();
    collection.merge_columns(vec![column(0, 1), column(1, 1)]);
    assert!(!collection.can_start_reconstruction(5));
    collection.merge_columns(vec![column(2, 1)]);
    assert!(collection.can_start_reconstruction(5));
    assert!(!collection.can_start_reconstruction(0));
}
