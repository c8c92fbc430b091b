use lighthouse_proofs::data_availability_checker::components::{
    ComponentRequirements, RequirementCheck, VerifiedComponents,
};
use lighthouse_proofs::data_availability_checker::state_machine::{
    AvailabilityState, FailureReason, StateTransition,
};
use lighthouse_proofs::blocks::{
    AvailableBlock, AvailableBlockData, AvailableExecutedBlock, BlockImportData, KzgVerifiedBlob,
    KzgVerifiedCustodyDataColumn, PayloadVerificationOutcome, PayloadVerificationStatus,
    SignedBeaconBlock,
};
use lighthouse_proofs::primitives::{ChainSpec, Hash256, KzgCommitment};

#[test]
fn test_state_creation() {
    let block_root = Hash256::from_low_u64_be(1);
    let state = AvailabilityState::from_components(block_root);

    assert_eq!(state.block_root(), block_root);
    assert!(!state.is_terminal());

    match state {
        AvailabilityState::WaitingForBlock { block_root: root, components } => {
            assert_eq!(root, block_root);
            assert_eq!(components.blob_count(), 0);
            assert_eq!(components.column_count(), 0);
        }
        _ => panic!("Expected WaitingForBlock state"),
    }
}

#[test]
fn test_blob_addition_to_waiting_state() {
    let block_root = Hash256::from_low_u64_be(1);
    let state = AvailabilityState::from_components(block_root);

    let blobs = vec![];
    let transition = state.add_blobs(blobs);

    match transition {
        StateTransition::Unchanged(_) => {}
        _ => panic!("Expected unchanged for empty blobs"),
    }
}

#[test]
fn test_state_transitions() {
    let block_root = Hash256::from_low_u64_be(1);

    let initial_state = AvailabilityState::from_components(block_root);
    assert!(matches!(initial_state, AvailabilityState::WaitingForBlock { .. }));

    let failed_state = initial_state.mark_failed(FailureReason::Timeout);
    match failed_state {
        StateTransition::Failed(AvailabilityState::Failed { block_root: failed_root, reason, .. }) => {
            assert_eq!(failed_root, block_root);
            assert!(matches!(reason, FailureReason::Timeout));
        }
        _ => panic!("Expected failed transition"),
    }
}

#[test]
fn test_block_root_mismatch() {
    let block_root_1 = Hash256::from_low_u64_be(1);
    let block_root_2 = Hash256::from_low_u64_be(2);

    let state = AvailabilityState::from_components(block_root_1);

    assert_eq!(state.block_root(), block_root_1);
    assert_ne!(state.block_root(), block_root_2);
}

#[test]
fn test_terminal_states() {
    let block_root = Hash256::from_low_u64_be(1);

    let failed_state = AvailabilityState::Failed {
        block_root,
        reason: FailureReason::Timeout,
        failed_at: 0,
    };

    assert!(failed_state.is_terminal());
    assert_eq!(failed_state.block_root(), block_root);

    let transition = failed_state.add_blobs(vec![]);
    assert!(matches!(transition, StateTransition::Ignored));
}

#[test]
fn test_component_requirements() {
    let blob_indices = vec![0, 1, 2];
    let column_indices = vec![0, 1, 2, 3, 4, 5, 6, 7];

    let requirements = ComponentRequirements::new(blob_indices.clone(), column_indices.clone(), true);

    let empty_components = VerifiedComponents::new();
    let check = requirements.is_satisfied_by(&empty_components);

    match check {
        RequirementCheck::Missing { blobs, columns } => {
            assert_eq!(blobs, blob_indices);
            assert_eq!(columns, column_indices);
        }
        _ => panic!("Expected missing components"),
    }
}

#[test]
fn test_verified_components() {
    let components = VerifiedComponents::new();

    assert_eq!(components.blob_count(), 0);
    assert_eq!(components.column_count(), 0);
    assert!(!components.has_blob(0));
    assert!(!components.has_column(0));

    assert!(!components.can_reconstruct(8));
}

#[test]
fn test_state_machine_invariants() {
    let block_root = Hash256::from_low_u64_be(1);

    let waiting_state = AvailabilityState::from_components(block_root);
    assert_eq!(waiting_state.block_root(), block_root);
    assert!(!waiting_state.is_terminal());

    let failed_transition =
        waiting_state.mark_failed(FailureReason::InvalidTransition("test".to_string()));
    match failed_transition {
        StateTransition::Failed(failed_state) => {
            assert_eq!(failed_state.block_root(), block_root);
            assert!(failed_state.is_terminal());
        }
        _ => panic!("Expected failed transition"),
    }
}

fn executed_block(root: Hash256, num_blobs: u128) -> AvailableExecutedBlock {
    let commitments: Vec<KzgCommitment> =
        (0..num_blobs).map(|i| KzgCommitment { hi: i, mid: 0, lo: 0 }).collect();
    let spec = ChainSpec {
        deneb_fork_epoch: Some(0),
        peer_das_epoch: None,
        max_blobs_per_block: 6,
        number_of_columns: 128,
        min_epochs_for_blob_sidecars_requests: 4096,
    };
    let block = SignedBeaconBlock { slot: 5, blob_kzg_commitments: commitments };
    AvailableExecutedBlock {
        block: AvailableBlock::__new_for_testing(root, block, AvailableBlockData::NoData, spec),
        import_data: BlockImportData { block_root: root },
        payload_verification_outcome: PayloadVerificationOutcome {
            payload_verification_status: PayloadVerificationStatus::Verified,
            is_valid_merge_transition_block: false,
        },
    }
}

fn blob(root: Hash256, index: u64) -> KzgVerifiedBlob {
    KzgVerifiedBlob {
        block_root: root,
        index,
        kzg_commitment: KzgCommitment { hi: index as u128, mid: 0, lo: 0 },
        slot: 5,
        seen_timestamp: 9,
    }
}

fn column(root: Hash256, index: u64) -> KzgVerifiedCustodyDataColumn {
    KzgVerifiedCustodyDataColumn {
        block_root: root,
        index,
        kzg_commitment: KzgCommitment { hi: 0, mid: index as u128, lo: 0 },
        slot: 5,
    }
}

#[test]
fn test_full_availability_flow() {
    let root = Hash256::from_low_u64_be(10);
    let state = AvailabilityState::from_components(root);
    let state = match state.add_blobs(vec![blob(root, 0), blob(root, 1)]) {
        StateTransition::Changed(s) => s,
        other => panic!("unexpected {:?}", other),
    };
    let columns: Vec<_> = (0..8).map(|i| column(root, i)).collect();
    let state = match state.add_columns(columns) {
        StateTransition::Changed(s) => s,
        other => panic!("unexpected {:?}", other),
    };
    assert!(matches!(state, AvailabilityState::WaitingForBlock { .. }));
    match state.add_block(executed_block(root, 2)) {
        StateTransition::Completed(AvailabilityState::Available { complete, .. }) => {
            assert_eq!(complete.import_data.block_root, root);
        }
        other => panic!("unexpected {:?}", other),
    }
}

#[test]
fn test_reconstruction_flow() {
    let root = Hash256::from_low_u64_be(11);
    let state = AvailabilityState::from_components(root);
    let state = match state.add_block(executed_block(root, 0)) {
        StateTransition::Changed(s) => s,
        other => panic!("unexpected {:?}", other),
    };
    assert!(matches!(state, AvailabilityState::WaitingForComponents { .. }));
    let half: Vec<_> = (0..4).map(|i| column(root, i)).collect();
    let state = match state.add_columns(half) {
        StateTransition::Changed(s) => s,
        other => panic!("unexpected {:?}", other),
    };
    assert!(matches!(state, AvailabilityState::Reconstructing { .. }));
    let rest: Vec<_> = (4..8).map(|i| column(root, i)).collect();
    match state.complete_reconstruction(rest) {
        StateTransition::Completed(AvailabilityState::Available { .. }) => {}
        other => panic!("unexpected {:?}", other),
    }
}

#[test]
fn test_failure_scenarios() {
    let root = Hash256::from_low_u64_be(12);
    let other_root = Hash256::from_low_u64_be(13);

    let state = AvailabilityState::from_components(root);
    match state.add_block(executed_block(other_root, 1)) {
        StateTransition::Rejected(FailureReason::BlockRootMismatch) => {}
        other => panic!("unexpected {:?}", other),
    }

    let state = AvailabilityState::from_components(root);
    let state = match state.add_blobs(vec![blob(root, 0)]) {
        StateTransition::Changed(s) => s,
        other => panic!("unexpected {:?}", other),
    };
    let mut conflicting = blob(root, 0);
    conflicting.kzg_commitment = KzgCommitment { hi: 99, mid: 0, lo: 0 };
    assert!(matches!(state.add_blobs(vec![conflicting]), StateTransition::Rejected(_)));

    let state = AvailabilityState::from_components(root);
    let state = match state.add_block(executed_block(root, 0)) {
        StateTransition::Changed(s) => s,
        other => panic!("unexpected {:?}", other),
    };
    let state = match state.add_columns((0..4).map(|i| column(root, i)).collect()) {
        StateTransition::Changed(s) => s,
        other => panic!("unexpected {:?}", other),
    };
    match state.complete_reconstruction(vec![column(root, 4)]) {
        StateTransition::Failed(AvailabilityState::Failed { block_root, .. }) => {
            assert_eq!(block_root, root)
        }
        other => panic!("unexpected {:?}", other),
    }
}
