//! Epoch-aware availability states: which components a block waits for
//! depends on the fork active at its epoch (none before Deneb, blobs before
//! PeerDAS, data columns after), and the transitions between the states.
use std::time::Instant;
use vstd::prelude::*;
use crate::blocks::{
    AvailabilityPendingExecutedBlock, AvailableBlock, AvailableBlockData, AvailableBlockView,
    AvailableExecutedBlock, AvailableExecutedBlockView, BlobDataView, DietAvailabilityPendingExecutedBlock, KzgVerifiedBlob,
    KzgVerifiedCustodyDataColumn, PendingBlockView,
};
use crate::clock::instant_now;
use crate::data_availability_checker::error::AvailabilityCheckError;
use crate::data_availability_checker::pending_components::{
    held_blobs, merge_columns_seq, opt_block_view,
};
use crate::primitives::{epoch_of, ChainSpec, Hash256};
use crate::text::concat2;
use super::collections::{
    lemma_filled_prefix_count,
    fill_slots, first_slots_filled, BlobCollection, ColumnCollection, ColumnCollectionView,
};

verus! {

/// Epoch-aware availability states that reflect the fork-based mutual exclusion
#[derive(Debug)]
pub enum AvailabilityState {
    /// Pre-Deneb blocks require no additional data
    PreDeneb { block: DietAvailabilityPendingExecutedBlock },
    /// Post-Deneb, Pre-PeerDAS: requires blob sidecars
    PostDeneb {
        block: Option<DietAvailabilityPendingExecutedBlock>,
        blobs: BlobCollection,
        expected_blob_count: u64,
    },
    /// Post-PeerDAS: requires data columns
    PostPeerDAS {
        block: Option<DietAvailabilityPendingExecutedBlock>,
        columns: ColumnCollection,
        expected_column_count: u64,
    },
    /// PeerDAS reconstruction in progress
    Reconstructing {
        block: DietAvailabilityPendingExecutedBlock,
        partial_columns: ColumnCollection,
        reconstruction_started_at: Instant,
    },
    /// Block is fully available and ready for import
    Available { available_block: AvailableExecutedBlock, completed_at: Instant },
    /// Terminal failure state
    Failed { block_root: Hash256, error: AvailabilityError, failed_at: Instant },
}

/// Errors of availability operations.
#[derive(Debug, Clone)]
pub enum AvailabilityError {
    InvalidStateTransition(String),
    MissingComponents(String),
    ReconstructionFailed(String),
    InternalError(String),
}

impl AvailabilityError {
    /// The message of the checker error this error becomes: a prefix naming
    /// the kind, then the message.
    pub open spec fn check_error_message(&self) -> Seq<char> {
        match self {
            AvailabilityError::InvalidStateTransition(m) => "Invalid state transition: "@ + m@,
            AvailabilityError::MissingComponents(m) => "Missing components: "@ + m@,
            AvailabilityError::ReconstructionFailed(m) => "Reconstruction failed: "@ + m@,
            AvailabilityError::InternalError(m) => "Internal error: "@ + m@,
        }
    }

    /// The variant's name with the message in quotes.
    pub open spec fn spec_debug_text(&self) -> Seq<char> {
        match self {
            AvailabilityError::InvalidStateTransition(m) => "InvalidStateTransition(\""@ + m@
                + "\")"@,
            AvailabilityError::MissingComponents(m) => "MissingComponents(\""@ + m@ + "\")"@,
            AvailabilityError::ReconstructionFailed(m) => "ReconstructionFailed(\""@ + m@
                + "\")"@,
            AvailabilityError::InternalError(m) => "InternalError(\""@ + m@ + "\")"@,
        }
    }

    /// The variant's name with the message in quotes.
    pub fn debug_text(&self) -> (s: String)
        ensures
            s@ == self.spec_debug_text(),
    {
        let (name, msg) = match self {
            AvailabilityError::InvalidStateTransition(m) => ("InvalidStateTransition(\"", m),
            AvailabilityError::MissingComponents(m) => ("MissingComponents(\"", m),
            AvailabilityError::ReconstructionFailed(m) => ("ReconstructionFailed(\"", m),
            AvailabilityError::InternalError(m) => ("InternalError(\"", m),
        };
        let mut s = String::from_str(name);
        s.append(msg.as_str());
        s.append("\")");
        s
    }

    /// A copy of the error: the same kind with the same message.
    pub fn duplicate(&self) -> (r: AvailabilityError)
        ensures
            r.check_error_message() == self.check_error_message(),
            r.spec_debug_text() == self.spec_debug_text(),
    {
        match self {
            AvailabilityError::InvalidStateTransition(m) => {
                AvailabilityError::InvalidStateTransition(m.clone())
            },
            AvailabilityError::MissingComponents(m) => AvailabilityError::MissingComponents(m.clone()),
            AvailabilityError::ReconstructionFailed(m) => {
                AvailabilityError::ReconstructionFailed(m.clone())
            },
            AvailabilityError::InternalError(m) => AvailabilityError::InternalError(m.clone()),
        }
    }

    /// The checker error for this error: always `Unexpected`, with a message
    /// that names the kind.
    pub fn into_check_error(self) -> (r: AvailabilityCheckError)
        ensures
            r matches AvailabilityCheckError::Unexpected(m) && m@ == self.check_error_message(),
    {
        match self {
            AvailabilityError::InvalidStateTransition(msg) => AvailabilityCheckError::Unexpected(
                concat2("Invalid state transition: ", msg.as_str()),
            ),
            AvailabilityError::MissingComponents(msg) => AvailabilityCheckError::Unexpected(
                concat2("Missing components: ", msg.as_str()),
            ),
            AvailabilityError::ReconstructionFailed(msg) => AvailabilityCheckError::Unexpected(
                concat2("Reconstruction failed: ", msg.as_str()),
            ),
            AvailabilityError::InternalError(msg) => AvailabilityCheckError::Unexpected(
                concat2("Internal error: ", msg.as_str()),
            ),
        }
    }
}

/// Result of a state transition
#[derive(Debug)]
pub enum StateTransition {
    /// State changed, block not yet available
    Changed(AvailabilityState),
    /// Block became available for import
    Completed(AvailableExecutedBlock),
    /// Terminal failure occurred
    Failed(AvailabilityError),
    /// No change needed
    NoChange,
}

/// `merged` is `before` with the columns `added` merged in: the columns held
/// are those of [`merge_columns_seq`], ordered by index, and the flag and the
/// expected count are unchanged.
pub open spec fn merged_columns(
    merged: ColumnCollection,
    before: ColumnCollection,
    added: Seq<KzgVerifiedCustodyDataColumn>,
) -> bool {
    &&& merged.wf()
    &&& forall|c: KzgVerifiedCustodyDataColumn|
        merged@.columns.contains(c) <==> merge_columns_seq(before@.columns, added).contains(c)
    &&& merged@.reconstruction_started == before@.reconstruction_started
    &&& merged@.expected_count == before@.expected_count
}

/// A fresh column collection: empty, reconstruction not started, nothing
/// expected.
pub open spec fn fresh_columns(c: ColumnCollection) -> bool {
    c.wf() && c@.columns.len() == 0 && !c@.reconstruction_started && c@.expected_count == 0
}

/// The available block made from `s` once its data is ready: the cached
/// block with the ready data, no availability time, and `spec`.
pub open spec fn made_available(s: AvailabilityState, spec: ChainSpec) -> Option<
    AvailableExecutedBlockView,
> {
    match (s.ready_data(), s.cached_block()) {
        (Some(data), Some(b)) => Some(
            AvailableExecutedBlockView {
                block: AvailableBlockView {
                    block_root: b.import_data.block_root,
                    block: b.block,
                    data,
                    blobs_available_timestamp: None,
                    spec,
                },
                import_data: b.import_data,
                outcome: b.outcome,
            },
        ),
        _ => None,
    }
}

impl AvailabilityState {
    /// Every column collection in the state is ordered by index.
    pub open spec fn wf(&self) -> bool {
        match self {
            AvailabilityState::PostPeerDAS { columns, .. } => columns.wf(),
            AvailabilityState::Reconstructing { partial_columns, .. } => partial_columns.wf(),
            _ => true,
        }
    }

    /// The cached block, if the state holds one.
    pub open spec fn cached_block(&self) -> Option<PendingBlockView> {
        match self {
            AvailabilityState::PreDeneb { block } => Some(block@),
            AvailabilityState::PostDeneb { block, .. } => opt_block_view(*block),
            AvailabilityState::PostPeerDAS { block, .. } => opt_block_view(*block),
            AvailabilityState::Reconstructing { block, .. } => Some(block@),
            _ => None,
        }
    }

    /// The data the block can be made available with now, if the block is
    /// held and its data complete: none before Deneb, its blobs once the
    /// expected blob slots are filled, its columns once the expected number is
    /// held.
    pub open spec fn ready_data(&self) -> Option<BlobDataView> {
        match self {
            AvailabilityState::PreDeneb { .. } => Some(BlobDataView::NoData),
            AvailabilityState::PostDeneb { block: Some(_), blobs, expected_blob_count } => {
                if first_slots_filled(blobs@, *expected_blob_count) {
                    Some(BlobDataView::Blobs(held_blobs(blobs@)))
                } else {
                    None
                }
            },
            AvailabilityState::PostPeerDAS { block: Some(_), columns, expected_column_count } => {
                if *expected_column_count == 0 || columns@.columns.len() >= *expected_column_count {
                    Some(BlobDataView::DataColumns(columns@.columns))
                } else {
                    None
                }
            },
            _ => None,
        }
    }

    /// The state with `diet_block` cached in it; states without a block slot
    /// are unchanged.
    pub open spec fn with_block(self, diet_block: DietAvailabilityPendingExecutedBlock) -> AvailabilityState {
        match self {
            AvailabilityState::PreDeneb { .. } => AvailabilityState::PreDeneb { block: diet_block },
            AvailabilityState::PostDeneb { blobs, expected_blob_count, .. } => {
                AvailabilityState::PostDeneb { block: Some(diet_block), blobs, expected_blob_count }
            },
            AvailabilityState::PostPeerDAS { columns, expected_column_count, .. } => {
                AvailabilityState::PostPeerDAS {
                    block: Some(diet_block),
                    columns,
                    expected_column_count,
                }
            },
            AvailabilityState::Reconstructing { partial_columns, reconstruction_started_at, .. } => {
                AvailabilityState::Reconstructing {
                    block: diet_block,
                    partial_columns,
                    reconstruction_started_at,
                }
            },
            other => other,
        }
    }

    /// Whether reconstruction may start: the block is held, at least half of
    /// the expected columns are, and reconstruction has not started.
    pub open spec fn spec_can_start_reconstruction(&self) -> bool {
        match self {
            AvailabilityState::PostPeerDAS { block, columns, expected_column_count } => {
                &&& block is Some
                &&& *expected_column_count != 0
                &&& 2 * columns@.columns.len() >= *expected_column_count
                &&& !columns@.reconstruction_started
            },
            _ => false,
        }
    }

    /// Create initial state for a block based on its epoch: before Deneb the
    /// block itself (which must be given), after PeerDAS an empty column
    /// collection, in between one empty blob slot per blob a block may carry,
    /// expecting as many blobs as the block commits to (none if no block).
    pub fn create_initial_state(
        _block_root: Hash256,
        block: Option<DietAvailabilityPendingExecutedBlock>,
        epoch: u64,
        spec: &ChainSpec,
        expected_column_count: u64,
    ) -> (r: AvailabilityState)
        requires
            spec.spec_deneb_enabled(epoch) || block is Some,
        ensures
            r.wf(),
            r.cached_block() == opt_block_view(block),
            !spec.spec_deneb_enabled(epoch) ==> r is PreDeneb,
            spec.spec_deneb_enabled(epoch) && spec.spec_peer_das_enabled(epoch) ==> (
            r matches AvailabilityState::PostPeerDAS { columns, expected_column_count: e, .. }
                && fresh_columns(columns) && e == expected_column_count),
            spec.spec_deneb_enabled(epoch) && !spec.spec_peer_das_enabled(epoch) ==> (
            r matches AvailabilityState::PostDeneb { blobs, expected_blob_count: e, .. }
                && blobs@ == Seq::new(
                (spec.max_blobs_per_block as usize) as nat,
                |i: int| None::<KzgVerifiedBlob>,
            ) && e == (match block {
                Some(b) => b.block.blob_kzg_commitments@.len() as int,
                None => 0int,
            })),
    {
        if !Self::is_deneb_enabled_for_epoch(epoch, spec) {
            match block {
                Some(block) => AvailabilityState::PreDeneb { block },
                None => {
                    proof {
                        assert(false);
                    }
                    AvailabilityState::PostDeneb {
                        block: None,
                        blobs: BlobCollection::new(0),
                        expected_blob_count: 0,
                    }
                },
            }
        } else if spec.is_peer_das_enabled_for_epoch(epoch) {
            AvailabilityState::PostPeerDAS {
                block,
                columns: ColumnCollection::new(),
                expected_column_count,
            }
        } else {
            let expected_blob_count: u64 = match &block {
                Some(b) => b.as_block().num_expected_blobs() as u64,
                None => 0u64,
            };
            AvailabilityState::PostDeneb {
                block,
                blobs: BlobCollection::new(spec.max_blobs_per_block(epoch) as usize),
                expected_blob_count,
            }
        }
    }

    /// Whether Deneb is active at `epoch`.
    fn is_deneb_enabled_for_epoch(epoch: u64, spec: &ChainSpec) -> (r: bool)
        ensures
            r == spec.spec_deneb_enabled(epoch),
    {
        match spec.deneb_fork_epoch {
            Some(deneb_epoch) => epoch >= deneb_epoch,
            None => false,
        }
    }

    /// Makes the block available if it is held and its data is complete (see
    /// [`Self::ready_data`]): the cached block is passed to `recover` to
    /// restore its full form, and the available block takes its root, block,
    /// import data and payload outcome from what `recover` returned. An error
    /// from `recover` becomes an internal error.
    pub fn make_available<R>(
        &self,
        spec: &ChainSpec,
        expected_column_count: u64,
        recover: R,
    ) -> (r: Result<Option<AvailableExecutedBlock>, AvailabilityError>) where
        R: FnOnce(DietAvailabilityPendingExecutedBlock) -> Result<
            AvailabilityPendingExecutedBlock,
            AvailabilityCheckError,
        >,

        requires
            forall|d: DietAvailabilityPendingExecutedBlock| recover.requires((d,)),
        ensures
            self.ready_data() is None ==> r matches Ok(None),
            self.ready_data() is Some ==> match r {
                Ok(Some(b)) => {
                    &&& b@.block.data == self.ready_data()->0
                    &&& b@.block.spec == *spec
                    &&& b@.block.blobs_available_timestamp is None
                    &&& exists|d: DietAvailabilityPendingExecutedBlock, x: AvailabilityPendingExecutedBlock|
                        Some(d@) == self.cached_block() && #[trigger] recover.ensures((d,), Ok(x))
                            && b@.block.block == x.block@ && b@.block.block_root
                            == x.import_data.block_root && b@.import_data == x.import_data
                            && b@.outcome == x.payload_verification_outcome
                },
                Ok(None) => false,
                Err(AvailabilityError::InternalError(m)) => exists|
                    d: DietAvailabilityPendingExecutedBlock,
                    e: AvailabilityCheckError,
                |
                    Some(d@) == self.cached_block() && #[trigger] recover.ensures((d,), Err(e)) && m@
                        == "Recovery failed: "@ + e.spec_describe(),
                Err(_) => false,
            },
    {
        match self {
            AvailabilityState::PreDeneb { block } => {
                Self::recover_into_available(block, AvailableBlockData::NoData, spec, recover)
            },
            AvailabilityState::PostDeneb { block: Some(diet_block), blobs, expected_blob_count } => {
                if blobs.is_complete(*expected_blob_count) {
                    let data = AvailableBlockData::Blobs(blobs.blob_list());
                    Self::recover_into_available(diet_block, data, spec, recover)
                } else {
                    Ok(None)
                }
            },
            AvailabilityState::PostPeerDAS {
                block: Some(diet_block),
                columns,
                expected_column_count,
            } => {
                if columns.is_complete(*expected_column_count) {
                    let data = AvailableBlockData::DataColumns(columns.column_list());
                    Self::recover_into_available(diet_block, data, spec, recover)
                } else {
                    Ok(None)
                }
            },
            _ => Ok(None),
        }
    }

    /// Restores `diet_block` with `recover` and builds the available block
    /// from what it returned and `data`.
    fn recover_into_available<R>(
        diet_block: &DietAvailabilityPendingExecutedBlock,
        data: AvailableBlockData,
        spec: &ChainSpec,
        recover: R,
    ) -> (r: Result<Option<AvailableExecutedBlock>, AvailabilityError>) where
        R: FnOnce(DietAvailabilityPendingExecutedBlock) -> Result<
            AvailabilityPendingExecutedBlock,
            AvailabilityCheckError,
        >,

        requires
            forall|d: DietAvailabilityPendingExecutedBlock| recover.requires((d,)),
        ensures
            match r {
                Ok(Some(b)) => {
                    &&& b@.block.data == data@
                    &&& b@.block.spec == *spec
                    &&& b@.block.blobs_available_timestamp is None
                    &&& exists|d: DietAvailabilityPendingExecutedBlock, x: AvailabilityPendingExecutedBlock|
                        d@ == diet_block@ && #[trigger] recover.ensures((d,), Ok(x))
                            && b@.block.block == x.block@ && b@.block.block_root
                            == x.import_data.block_root && b@.import_data == x.import_data
                            && b@.outcome == x.payload_verification_outcome
                },
                Ok(None) => false,
                Err(AvailabilityError::InternalError(m)) => exists|
                    d: DietAvailabilityPendingExecutedBlock,
                    e: AvailabilityCheckError,
                |
                    d@ == diet_block@ && #[trigger] recover.ensures((d,), Err(e)) && m@
                        == "Recovery failed: "@ + e.spec_describe(),
                Err(_) => false,
            },
    {
        let d = diet_block.clone_diet();
        let ghost handed = d;
        let recovered = recover(d);
        match recovered {
            Ok(recovered_block) => {
                let AvailabilityPendingExecutedBlock {
                    block,
                    import_data,
                    payload_verification_outcome,
                } = recovered_block;
                let available_block = AvailableBlock::__new_for_testing(
                    import_data.block_root,
                    block,
                    data,
                    *spec,
                );
                Ok(
                    Some(
                        AvailableExecutedBlock::new(
                            available_block,
                            import_data,
                            payload_verification_outcome,
                        ),
                    ),
                )
            },
            Err(e) => {
                proof {
                    assert(recover.ensures((handed,), Err::<AvailabilityPendingExecutedBlock, AvailabilityCheckError>(e)));
                }
                let text = e.describe();
                Err(AvailabilityError::InternalError(concat2("Recovery failed: ", text.as_str())))
            },
        }
    }

    /// Caches the block in the state (see [`Self::with_block`]).
    pub fn add_diet_block(self, diet_block: DietAvailabilityPendingExecutedBlock) -> (r:
        AvailabilityState)
        ensures
            r == self.with_block(diet_block),
            self.wf() ==> r.wf(),
    {
        match self {
            AvailabilityState::PreDeneb { .. } => AvailabilityState::PreDeneb { block: diet_block },
            AvailabilityState::PostDeneb { blobs, expected_blob_count, .. } => {
                AvailabilityState::PostDeneb { block: Some(diet_block), blobs, expected_blob_count }
            },
            AvailabilityState::PostPeerDAS { columns, expected_column_count, .. } => {
                AvailabilityState::PostPeerDAS {
                    block: Some(diet_block),
                    columns,
                    expected_column_count,
                }
            },
            AvailabilityState::Reconstructing { partial_columns, reconstruction_started_at, .. } => {
                AvailabilityState::Reconstructing {
                    block: diet_block,
                    partial_columns,
                    reconstruction_started_at,
                }
            },
            other => other,
        }
    }

    /// `r` is the transition of this state when `new_blobs` are added: a
    /// post-Deneb state stays post-Deneb with the blobs filling the empty
    /// slots of their indices; any other state fails.
    pub open spec fn blobs_transition(self, new_blobs: Seq<KzgVerifiedBlob>, r: StateTransition) -> bool {
            match self {
                AvailabilityState::PostDeneb { block, blobs, expected_blob_count } => {
                    r matches StateTransition::Changed(
                        AvailabilityState::PostDeneb { block: b, blobs: bl, expected_blob_count: e },
                    ) && b == block && e == expected_blob_count && bl@ == fill_slots(
                        blobs@,
                        new_blobs,
                    )
                },
                _ => r matches StateTransition::Failed(
                    AvailabilityError::InvalidStateTransition(m),
                ) && m@ == "Cannot add blobs to non-PostDeneb state"@,
            }
    }

    /// Adds blob sidecars (post-Deneb, pre-PeerDAS only): they fill empty
    /// slots of their indices and the state stays post-Deneb; any other state
    /// refuses them (see [`Self::blobs_transition`]).
    pub fn add_blobs(self, new_blobs: Vec<KzgVerifiedBlob>, spec: &ChainSpec) -> (r: StateTransition)
        ensures
            self.blobs_transition(new_blobs@, r),
    {
        match self {
            AvailabilityState::PostDeneb { block, mut blobs, expected_blob_count } => {
                blobs.merge_blobs(new_blobs);
                StateTransition::Changed(
                    AvailabilityState::PostDeneb { block, blobs, expected_blob_count },
                )
            },
            _ => StateTransition::Failed(
                AvailabilityError::InvalidStateTransition(
                    String::from_str("Cannot add blobs to non-PostDeneb state"),
                ),
            ),
        }
    }

    /// `r` is the transition of this state when `new_columns` are added (see
    /// [`Self::add_columns`]).
    pub open spec fn columns_transition(
        self,
        new_columns: Seq<KzgVerifiedCustodyDataColumn>,
        r: StateTransition,
    ) -> bool {
            match self {
                AvailabilityState::PostPeerDAS { block, columns, expected_column_count } => {
                    r matches StateTransition::Changed(s) && match s {
                        AvailabilityState::PostPeerDAS {
                            block: b,
                            columns: c,
                            expected_column_count: e,
                        } => {
                            &&& merged_columns(c, columns, new_columns)
                            &&& b == block
                            &&& e == expected_column_count
                            &&& block is Some ==> (e == 0 || c@.columns.len() >= e || !(
                            2 * c@.columns.len() >= e && !c@.reconstruction_started
                                && block->0.block.blob_kzg_commitments@.len() > 0))
                        },
                        AvailabilityState::Reconstructing { block: b, partial_columns: c, .. } => {
                            &&& merged_columns(c, columns, new_columns)
                            &&& block == Some(b)
                            &&& expected_column_count != 0
                            &&& c@.columns.len() < expected_column_count
                            &&& 2 * c@.columns.len() >= expected_column_count
                            &&& !c@.reconstruction_started
                            &&& b.block.blob_kzg_commitments@.len() > 0
                        },
                        _ => false,
                    }
                },
                AvailabilityState::Reconstructing {
                    block,
                    partial_columns,
                    reconstruction_started_at,
                } => {
                    r matches StateTransition::Changed(s) && match s {
                        AvailabilityState::PostPeerDAS {
                            block: b,
                            columns: c,
                            expected_column_count: e,
                        } => {
                            &&& merged_columns(c, partial_columns, new_columns)
                            &&& b == Some(block)
                            &&& e == 0
                            &&& c@.columns.len() > 0
                            &&& c@.reconstruction_started
                        },
                        AvailabilityState::Reconstructing {
                            block: b,
                            partial_columns: c,
                            reconstruction_started_at: t,
                        } => {
                            &&& merged_columns(c, partial_columns, new_columns)
                            &&& b == block
                            &&& t == reconstruction_started_at
                            &&& !(c@.columns.len() > 0 && c@.reconstruction_started)
                        },
                        _ => false,
                    }
                },
                _ => r matches StateTransition::Failed(
                    AvailabilityError::InvalidStateTransition(m),
                ) && m@ == "Cannot add columns to non-PeerDAS state"@,
            }
    }

    /// Adds data columns (post-PeerDAS only). With the block held and the
    /// columns incomplete, reconstruction starts once it may and the block has
    /// blobs. While reconstructing, the columns are added and the state
    /// returns to waiting for columns, expecting none, once reconstruction
    /// counts as complete. Any other state refuses columns (see
    /// [`Self::columns_transition`]).
    pub fn add_columns(self, new_columns: Vec<KzgVerifiedCustodyDataColumn>, spec: &ChainSpec) -> (r:
        StateTransition)
        requires
            self.wf(),
        ensures
            r matches StateTransition::Changed(s) ==> s.wf(),
            self.columns_transition(new_columns@, r),
    {
        match self {
            AvailabilityState::PostPeerDAS { block, mut columns, expected_column_count } => {
                columns.merge_columns(new_columns);
                match block {
                    Some(block) => {
                        if columns.is_complete(expected_column_count) {
                            StateTransition::Changed(
                                AvailabilityState::PostPeerDAS {
                                    block: Some(block),
                                    columns,
                                    expected_column_count,
                                },
                            )
                        } else if columns.can_start_reconstruction(expected_column_count)
                            && block.as_block().num_expected_blobs() > 0 {
                            StateTransition::Changed(
                                AvailabilityState::Reconstructing {
                                    block,
                                    partial_columns: columns,
                                    reconstruction_started_at: instant_now(),
                                },
                            )
                        } else {
                            StateTransition::Changed(
                                AvailabilityState::PostPeerDAS {
                                    block: Some(block),
                                    columns,
                                    expected_column_count,
                                },
                            )
                        }
                    },
                    None => StateTransition::Changed(
                        AvailabilityState::PostPeerDAS { block: None, columns, expected_column_count },
                    ),
                }
            },
            AvailabilityState::Reconstructing {
                block,
                mut partial_columns,
                reconstruction_started_at,
            } => {
                partial_columns.merge_columns(new_columns);
                if partial_columns.is_complete_for_reconstruction() {
                    StateTransition::Changed(
                        AvailabilityState::PostPeerDAS {
                            block: Some(block),
                            columns: partial_columns,
                            expected_column_count: 0,
                        },
                    )
                } else {
                    StateTransition::Changed(
                        AvailabilityState::Reconstructing {
                            block,
                            partial_columns,
                            reconstruction_started_at,
                        },
                    )
                }
            },
            _ => StateTransition::Failed(
                AvailabilityError::InvalidStateTransition(
                    String::from_str("Cannot add columns to non-PeerDAS state"),
                ),
            ),
        }
    }

    /// The epoch of the held block; none when no block is held, and none once
    /// available or failed.
    pub open spec fn held_epoch(&self) -> Option<u64> {
        match self {
            AvailabilityState::Available { .. } => None,
            AvailabilityState::Failed { .. } => None,
            _ => match self.cached_block() {
                Some(b) => Some(epoch_of(b.block.slot)),
                None => None,
            },
        }
    }

    /// The epoch of the held block; none when no block is held, and none once
    /// available or failed.
    pub fn epoch(&self) -> (r: Option<u64>)
        ensures
            r == self.held_epoch(),
    {
        match self {
            AvailabilityState::PreDeneb { block } => Some(block.as_block().epoch()),
            AvailabilityState::PostDeneb { block, .. } => match block {
                Some(b) => Some(b.as_block().epoch()),
                None => None,
            },
            AvailabilityState::PostPeerDAS { block, .. } => match block {
                Some(b) => Some(b.as_block().epoch()),
                None => None,
            },
            AvailabilityState::Reconstructing { block, .. } => Some(block.as_block().epoch()),
            AvailabilityState::Available { .. } => None,
            AvailabilityState::Failed { .. } => None,
        }
    }

    /// Whether reconstruction may start (see
    /// [`Self::spec_can_start_reconstruction`]).
    pub fn can_start_reconstruction(&self) -> (r: bool)
        ensures
            r == self.spec_can_start_reconstruction(),
    {
        match self {
            AvailabilityState::PostPeerDAS { block, columns, expected_column_count } => {
                block.is_some() && columns.can_start_reconstruction(*expected_column_count)
                    && !columns.reconstruction_started()
            },
            _ => false,
        }
    }

    /// Starts reconstruction when it may start, keeping the block and the
    /// columns; otherwise refuses.
    pub fn start_reconstruction(self) -> (r: StateTransition)
        ensures
            r matches StateTransition::Changed(s) ==> (self.wf() ==> s.wf()),
            self.spec_can_start_reconstruction() ==> match self {
                AvailabilityState::PostPeerDAS { block, columns, .. } => r matches StateTransition::Changed(
                    AvailabilityState::Reconstructing { block: b, partial_columns: c, .. },
                ) && block == Some(b) && c == columns,
                _ => false,
            },
            !self.spec_can_start_reconstruction() ==> (r matches StateTransition::Failed(
                AvailabilityError::InvalidStateTransition(m),
            ) && m@ == "Cannot start reconstruction from this state"@),
    {
        let can_start = self.can_start_reconstruction();
        if can_start {
            match self {
                AvailabilityState::PostPeerDAS { block: Some(block), columns, .. } => {
                    StateTransition::Changed(
                        AvailabilityState::Reconstructing {
                            block,
                            partial_columns: columns,
                            reconstruction_started_at: instant_now(),
                        },
                    )
                },
                _ => StateTransition::Failed(
                    AvailabilityError::InvalidStateTransition(
                        String::from_str("Cannot start reconstruction without block"),
                    ),
                ),
            }
        } else {
            StateTransition::Failed(
                AvailabilityError::InvalidStateTransition(
                    String::from_str("Cannot start reconstruction from this state"),
                ),
            )
        }
    }

    /// The columns being reconstructed, while reconstructing.
    pub fn get_reconstruction_columns(&self) -> (r: Option<&ColumnCollection>)
        ensures
            r == (match self {
                AvailabilityState::Reconstructing { partial_columns, .. } => Some(partial_columns),
                _ => None,
            }),
    {
        match self {
            AvailabilityState::Reconstructing { partial_columns, .. } => Some(partial_columns),
            _ => None,
        }
    }

    /// After a failed reconstruction: back to waiting for columns with the
    /// block, no columns, and the expected count the partial collection had.
    /// In any other state, the failure is reported with `error`.
    pub fn handle_reconstruction_failure(self, error: String) -> (r: StateTransition)
        ensures
            match self {
                AvailabilityState::Reconstructing { block, partial_columns, .. } => r matches StateTransition::Changed(
                    AvailabilityState::PostPeerDAS { block: b, columns: c, expected_column_count: e },
                ) && b == Some(block) && fresh_columns(c) && e == partial_columns@.expected_count,
                _ => r matches StateTransition::Failed(
                    AvailabilityError::ReconstructionFailed(m),
                ) && m == error,
            },
            r matches StateTransition::Changed(s) ==> s.wf(),
    {
        match self {
            AvailabilityState::Reconstructing { block, partial_columns, .. } => {
                StateTransition::Changed(
                    AvailabilityState::PostPeerDAS {
                        block: Some(block),
                        columns: ColumnCollection::new(),
                        expected_column_count: partial_columns.expected_count(),
                    },
                )
            },
            _ => StateTransition::Failed(AvailabilityError::ReconstructionFailed(error)),
        }
    }
}

/// A state has its data ready only when all of it is held: a pre-PeerDAS
/// block once a blob is held at every index below the expected count (then
/// with the held blobs, at least that many), a PeerDAS block once at least the
/// expected number of columns is held (then with those columns); a missing
/// blob or too few columns leave nothing ready, and so does a missing block.
pub proof fn data_ready_only_when_complete(s: AvailabilityState)
    ensures
        s matches AvailabilityState::PostDeneb { block: None, .. } ==> s.ready_data() is None,
        s matches AvailabilityState::PostPeerDAS { block: None, .. } ==> s.ready_data() is None,
        match s {
            AvailabilityState::PostDeneb { block: Some(_), blobs, expected_blob_count } => {
                &&& (exists|i: int| 0 <= i < expected_blob_count && !(i < blobs@.len() && #[trigger] blobs@[i] is Some))
                    ==> s.ready_data() is None
                &&& (forall|i: int| 0 <= i < expected_blob_count ==> i < blobs@.len() && #[trigger] blobs@[i] is Some)
                    ==> s.ready_data() == Some(BlobDataView::Blobs(held_blobs(blobs@)))
                &&& s.ready_data() is Some ==> held_blobs(blobs@).len() >= expected_blob_count
            },
            AvailabilityState::PostPeerDAS { block: Some(_), columns, expected_column_count } => {
                &&& columns@.columns.len() < expected_column_count ==> s.ready_data() is None
                &&& columns@.columns.len() >= expected_column_count ==> s.ready_data() == Some(
                    BlobDataView::DataColumns(columns@.columns),
                )
            },
            _ => true,
        },
{
    match s {
        AvailabilityState::PostDeneb { block: Some(_), blobs, expected_blob_count } => {
            if s.ready_data() is Some {
                if expected_blob_count > 0 {
                    let k: int = expected_blob_count - 1;
                    assert(k < blobs@.len() && blobs@[k] is Some);
                    lemma_filled_prefix_count(blobs@, expected_blob_count as int);
                }
            }
        },
        _ => {},
    }
}

} // verus!
