//! The states a block passes through while its data is gathered, and the
//! transitions between them.
use std::collections::HashMap;
use vstd::prelude::*;
use crate::blocks::{AvailableExecutedBlock, KzgVerifiedBlob, KzgVerifiedCustodyDataColumn};
use crate::clock::unix_time_millis;
use crate::primitives::Hash256;
use super::components::{
    blob_conflicts, column_conflicts, component_error_message, completes_with, half_rounded_up,
    missing_from, ComponentError, ComponentRequirements, PartialComponents, RequirementCheck,
    VerifiedComponents,
};

verus! {

broadcast use vstd::std_specs::hash::group_hash_axioms;

/// Represents all possible states during block availability checking.
#[derive(Debug)]
pub enum AvailabilityState {
    /// Have some blobs/columns but waiting for the block
    WaitingForBlock { block_root: Hash256, components: VerifiedComponents },
    /// Have the block but missing required data components
    WaitingForComponents {
        block: AvailableExecutedBlock,
        components: VerifiedComponents,
        missing: ComponentRequirements,
    },
    /// Currently reconstructing missing data from partial components
    Reconstructing {
        block: AvailableExecutedBlock,
        partial_data: PartialComponents,
        /// Milliseconds since the UNIX epoch at which reconstruction started.
        started_at: u64,
    },
    /// All required components available and ready for import
    Available {
        complete: AvailableExecutedBlock,
        /// Milliseconds since the UNIX epoch at which the block became available.
        completion_time: u64,
    },
    /// Failed to become available (timeout, invalid data, etc.)
    Failed {
        block_root: Hash256,
        reason: FailureReason,
        /// Milliseconds since the UNIX epoch at which the failure happened.
        failed_at: u64,
    },
}

/// Possible reasons for availability failure.
#[derive(Debug)]
pub enum FailureReason {
    /// Block root mismatch between components
    BlockRootMismatch,
    /// Invalid blob index or commitment mismatch
    InvalidBlob(String),
    /// Invalid data column
    InvalidColumn(String),
    /// Reconstruction failed
    ReconstructionFailed(String),
    /// Timed out waiting for components
    Timeout,
    /// Invalid state transition
    InvalidTransition(String),
}

/// Result of attempting a state transition.
#[derive(Debug)]
pub enum StateTransition {
    /// State changed, but not complete
    Changed(AvailabilityState),
    /// Block became available
    Completed(AvailabilityState),
    /// State unchanged
    Unchanged(AvailabilityState),
    /// Input was ignored (already complete, wrong block root, etc.)
    Ignored,
    /// Transition rejected due to error
    Rejected(FailureReason),
    /// State failed permanently
    Failed(AvailabilityState),
}

impl StateTransition {
    /// The state carried by the transition, if any.
    pub fn into_state(self) -> (r: Option<AvailabilityState>)
        ensures
            r == (match self {
                StateTransition::Changed(s) => Some(s),
                StateTransition::Completed(s) => Some(s),
                StateTransition::Unchanged(s) => Some(s),
                StateTransition::Failed(s) => Some(s),
                _ => None,
            }),
    {
        match self {
            StateTransition::Changed(s) => Some(s),
            StateTransition::Completed(s) => Some(s),
            StateTransition::Unchanged(s) => Some(s),
            StateTransition::Failed(s) => Some(s),
            StateTransition::Ignored => None,
            StateTransition::Rejected(_) => None,
        }
    }

    pub fn is_complete(&self) -> (r: bool)
        ensures
            r == (self is Completed),
    {
        matches!(self, StateTransition::Completed(_))
    }

    pub fn is_failed(&self) -> (r: bool)
        ensures
            r == (self is Failed),
    {
        matches!(self, StateTransition::Failed(_))
    }
}

/// Adds `items` one after another to `m` under their indices; stops at the
/// first item that conflicts with what is held at its index and gives that
/// index.
pub open spec fn add_blobs_seq(m: Map<u64, KzgVerifiedBlob>, items: Seq<KzgVerifiedBlob>) -> Result<
    Map<u64, KzgVerifiedBlob>,
    u64,
>
    decreases items.len(),
{
    if items.len() == 0 {
        Ok(m)
    } else {
        match add_blobs_seq(m, items.drop_last()) {
            Err(i) => Err(i),
            Ok(m2) => if blob_conflicts(m2, items.last()) {
                Err(items.last().index)
            } else {
                Ok(m2.insert(items.last().index, items.last()))
            },
        }
    }
}

/// Column counterpart of [`add_blobs_seq`].
pub open spec fn add_columns_seq(
    m: Map<u64, KzgVerifiedCustodyDataColumn>,
    items: Seq<KzgVerifiedCustodyDataColumn>,
) -> Result<Map<u64, KzgVerifiedCustodyDataColumn>, u64>
    decreases items.len(),
{
    if items.len() == 0 {
        Ok(m)
    } else {
        match add_columns_seq(m, items.drop_last()) {
            Err(i) => Err(i),
            Ok(m2) => if column_conflicts(m2, items.last()) {
                Err(items.last().index)
            } else {
                Ok(m2.insert(items.last().index, items.last()))
            },
        }
    }
}

/// Adds reconstructed `items` one after another to `m`; stops at the first
/// whose index is at or above `total` and gives that index.
pub open spec fn add_partial_seq(
    m: Map<u64, KzgVerifiedCustodyDataColumn>,
    total: u64,
    items: Seq<KzgVerifiedCustodyDataColumn>,
) -> Result<Map<u64, KzgVerifiedCustodyDataColumn>, u64>
    decreases items.len(),
{
    if items.len() == 0 {
        Ok(m)
    } else {
        match add_partial_seq(m, total, items.drop_last()) {
            Err(i) => Err(i),
            Ok(m2) => if items.last().index >= total {
                Err(items.last().index)
            } else {
                Ok(m2.insert(items.last().index, items.last()))
            },
        }
    }
}

/// The indices `0..n`.
pub open spec fn index_range(n: nat) -> Seq<u64> {
    Seq::new(n, |i: int| i as u64)
}

/// Number of data columns a block requires in this state machine.
pub const REQUIRED_COLUMNS: u64 = 8;

/// Whether `r` rejects a blob whose index `i` conflicts.
pub open spec fn rejects_blob(r: StateTransition, i: u64) -> bool {
    r matches StateTransition::Rejected(FailureReason::InvalidBlob(m)) && m@
        == component_error_message(ComponentError::ConflictingBlob(i))
}

/// Whether `r` rejects a column whose index `i` conflicts.
pub open spec fn rejects_column(r: StateTransition, i: u64) -> bool {
    r matches StateTransition::Rejected(FailureReason::InvalidColumn(m)) && m@
        == component_error_message(ComponentError::ConflictingColumn(i))
}

/// Whether `r` is the state `WaitingForBlock` for `root` holding exactly these
/// blobs and columns.
pub open spec fn waits_for_block(
    r: StateTransition,
    root: Hash256,
    blobs: Map<u64, KzgVerifiedBlob>,
    columns: Map<u64, KzgVerifiedCustodyDataColumn>,
) -> bool {
    r matches StateTransition::Changed(AvailabilityState::WaitingForBlock { block_root, components })
        && block_root == root && components.blobs@ == blobs && components.columns@ == columns
}

/// What checking `missing` against the given blobs and columns leads to, for a
/// block that is present: availability, reconstruction, or waiting on what
/// is still missing.
pub open spec fn after_update(
    r: StateTransition,
    block: AvailableExecutedBlock,
    blobs: Map<u64, KzgVerifiedBlob>,
    columns: Map<u64, KzgVerifiedCustodyDataColumn>,
    req_blobs: Seq<u64>,
    req_columns: Seq<u64>,
    can_use_reconstruction: bool,
) -> bool {
    let mb = missing_from(req_blobs, blobs.dom());
    let mc = missing_from(req_columns, columns.dom());
    if mb.len() == 0 && mc.len() == 0 {
        r matches StateTransition::Completed(AvailabilityState::Available { complete, .. })
            && completes_with(&complete, &block, blobs, columns)
    } else if mc.len() != 0 && can_use_reconstruction && columns.len() >= half_rounded_up(
        req_columns.len() as int,
    ) {
        r matches StateTransition::Changed(
            AvailabilityState::Reconstructing { block: b, partial_data, .. },
        ) && b == block && partial_data.columns@ == columns && partial_data.total_expected
            == req_columns.len()
    } else {
        r matches StateTransition::Changed(
            AvailabilityState::WaitingForComponents { block: b, components, missing },
        ) && b == block && components.blobs@ == blobs && components.columns@ == columns
            && missing.blob_indices@ == mb && missing.column_indices@ == mc
            && missing.can_use_reconstruction
    }
}

/// Whether `r` is the failure of reconstruction for `root` with message `msg`.
pub open spec fn fails_reconstruction(r: StateTransition, root: Hash256, msg: Seq<char>) -> bool {
    r matches StateTransition::Failed(
        AvailabilityState::Failed { block_root, reason: FailureReason::ReconstructionFailed(m), .. },
    ) && block_root == root && m@ == msg
}

impl AvailabilityState {
    /// The block root of the state.
    pub open spec fn spec_block_root(&self) -> Hash256 {
        match self {
            AvailabilityState::WaitingForBlock { block_root, .. } => *block_root,
            AvailabilityState::WaitingForComponents { block, .. } => block.import_data.block_root,
            AvailabilityState::Reconstructing { block, .. } => block.import_data.block_root,
            AvailabilityState::Available { complete, .. } => complete.import_data.block_root,
            AvailabilityState::Failed { block_root, .. } => *block_root,
        }
    }

    /// Create new state from initial components: waiting for the block, with
    /// nothing held yet.
    pub fn from_components(block_root: Hash256) -> (s: AvailabilityState)
        ensures
            s matches AvailabilityState::WaitingForBlock { block_root: r, components } && r
                == block_root && components.blobs@ == Map::<u64, KzgVerifiedBlob>::empty()
                && components.columns@ == Map::<u64, KzgVerifiedCustodyDataColumn>::empty(),
    {
        AvailabilityState::WaitingForBlock { block_root, components: VerifiedComponents::new() }
    }

    /// Get the block root of the state.
    pub fn block_root(&self) -> (r: Hash256)
        ensures
            r == self.spec_block_root(),
    {
        match self {
            AvailabilityState::WaitingForBlock { block_root, .. } => *block_root,
            AvailabilityState::WaitingForComponents { block, .. } => block.import_data.block_root,
            AvailabilityState::Reconstructing { block, .. } => block.import_data.block_root,
            AvailabilityState::Available { complete, .. } => complete.import_data.block_root,
            AvailabilityState::Failed { block_root, .. } => *block_root,
        }
    }

    /// Check if state is terminal (available or failed).
    pub fn is_terminal(&self) -> (r: bool)
        ensures
            r == (self is Available || self is Failed),
    {
        matches!(self, AvailabilityState::Available { .. } | AvailabilityState::Failed { .. })
    }

    /// The requirements for a block: each of its blobs, and columns `0..8`.
    fn requirements_for_block(block: &AvailableExecutedBlock) -> (r: ComponentRequirements)
        ensures
            r.blob_indices@ == index_range(block.block.block.blob_kzg_commitments@.len()),
            r.column_indices@ == index_range(REQUIRED_COLUMNS as nat),
            r.can_use_reconstruction,
    {
        let num_blobs = block.block.block.num_expected_blobs();
        let blob_indices = indices_below(num_blobs as u64);
        let column_indices = indices_below(REQUIRED_COLUMNS);
        ComponentRequirements::new(blob_indices, column_indices, true)
    }

    /// `r` is the transition of this state when `block` arrives (see [`Self::add_block`]).
    pub open spec fn block_step(self, block: AvailableExecutedBlock, r: StateTransition) -> bool {
        &&& (match self {
                AvailabilityState::WaitingForBlock { block_root, components } => {
                    if block.import_data.block_root != block_root {
                        r == StateTransition::Rejected(FailureReason::BlockRootMismatch)
                    } else {
                        after_update(
                            r,
                            block,
                            components.blobs@,
                            components.columns@,
                            index_range(block.block.block.blob_kzg_commitments@.len()),
                            index_range(REQUIRED_COLUMNS as nat),
                            true,
                        )
                    }
                },
                AvailabilityState::Available { .. } => r is Ignored,
                AvailabilityState::Failed { .. } => r is Ignored,
                _ => r matches StateTransition::Rejected(FailureReason::InvalidTransition(m)) && m@
                    == "Block already present"@,
            })
    }

    /// Add a block to the state. A state waiting for this block checks it
    /// against what it holds; terminal states ignore it; other states reject it.
    pub fn add_block(self, block: AvailableExecutedBlock) -> (r: StateTransition)
        ensures
            self.block_step(block, r),
    {
        let block_root = block.import_data.block_root;
        match self {
            AvailabilityState::WaitingForBlock { block_root: waiting_root, components } => {
                if block_root == waiting_root {
                    let requirements = Self::requirements_for_block(&block);
                    Self::check_completion_after_update(block, components, requirements)
                } else {
                    StateTransition::Rejected(FailureReason::BlockRootMismatch)
                }
            },
            AvailabilityState::Available { .. } => StateTransition::Ignored,
            AvailabilityState::Failed { .. } => StateTransition::Ignored,
            _ => StateTransition::Rejected(
                FailureReason::InvalidTransition(String::from_str("Block already present")),
            ),
        }
    }

    /// Adds `blobs` to `components` in order; on the first conflict gives the
    /// error and leaves the rest unadded.
    fn add_all_blobs(components: &mut VerifiedComponents, blobs: &Vec<KzgVerifiedBlob>) -> (r:
        Result<(), ComponentError>)
        ensures
            match add_blobs_seq(old(components).blobs@, blobs@) {
                Ok(m) => r is Ok && final(components).blobs@ == m,
                Err(i) => r == Err::<(), ComponentError>(ComponentError::ConflictingBlob(i)),
            },
            final(components).columns@ == old(components).columns@,
            old(components).wf() ==> final(components).wf(),
    {
        let ghost m0 = components.blobs@;
        let mut i: usize = 0;
        while i < blobs.len()
            invariant
                i <= blobs@.len(),
                add_blobs_seq(m0, blobs@.take(i as int)) == Ok::<Map<u64, KzgVerifiedBlob>, u64>(
                    components.blobs@,
                ),
                components.columns@ == old(components).columns@,
                m0 == old(components).blobs@,
                old(components).wf() ==> components.wf(),
            decreases blobs@.len() - i,
        {
            proof {
                assert(blobs@.take(i as int + 1).drop_last() =~= blobs@.take(i as int));
            }
            match components.add_blob(blobs[i]) {
                Ok(_) => {},
                Err(e) => {
                    proof {
                        lemma_add_blobs_seq_err_prefix(m0, blobs@, i as int + 1);
                    }
                    return Err(e);
                },
            }
            i = i + 1;
        }
        proof {
            assert(blobs@.take(i as int) =~= blobs@);
        }
        Ok(())
    }

    /// Adds `columns` to `components` in order; on the first conflict gives
    /// the error and leaves the rest unadded.
    fn add_all_columns(
        components: &mut VerifiedComponents,
        columns: &Vec<KzgVerifiedCustodyDataColumn>,
    ) -> (r: Result<(), ComponentError>)
        ensures
            match add_columns_seq(old(components).columns@, columns@) {
                Ok(m) => r is Ok && final(components).columns@ == m,
                Err(i) => r == Err::<(), ComponentError>(ComponentError::ConflictingColumn(i)),
            },
            final(components).blobs@ == old(components).blobs@,
            old(components).wf() ==> final(components).wf(),
    {
        let ghost m0 = components.columns@;
        let mut i: usize = 0;
        while i < columns.len()
            invariant
                i <= columns@.len(),
                add_columns_seq(m0, columns@.take(i as int)) == Ok::<
                    Map<u64, KzgVerifiedCustodyDataColumn>,
                    u64,
                >(components.columns@),
                components.blobs@ == old(components).blobs@,
                m0 == old(components).columns@,
                old(components).wf() ==> components.wf(),
            decreases columns@.len() - i,
        {
            proof {
                assert(columns@.take(i as int + 1).drop_last() =~= columns@.take(i as int));
            }
            match components.add_column(columns[i]) {
                Ok(_) => {},
                Err(e) => {
                    proof {
                        lemma_add_columns_seq_err_prefix(m0, columns@, i as int + 1);
                    }
                    return Err(e);
                },
            }
            i = i + 1;
        }
        proof {
            assert(columns@.take(i as int) =~= columns@);
        }
        Ok(())
    }

    /// `r` is the transition of this state when `blobs` arrive (see [`Self::add_blobs`]).
    pub open spec fn blobs_step(self, blobs: Seq<KzgVerifiedBlob>, r: StateTransition) -> bool {
        &&& ((self is Available || self is Failed) ==> r is Ignored)
        &&& (!(self is Available || self is Failed) && blobs.len() == 0 ==> r
                == StateTransition::Unchanged(self))
        &&& (blobs.len() > 0 ==> {
                let root = blobs[0].block_root;
                match self {
                    AvailabilityState::WaitingForBlock { block_root, components } => {
                        if root != block_root {
                            r == StateTransition::Rejected(FailureReason::BlockRootMismatch)
                        } else {
                            match add_blobs_seq(components.blobs@, blobs) {
                                Err(i) => rejects_blob(r, i),
                                Ok(m) => waits_for_block(r, block_root, m, components.columns@),
                            }
                        }
                    },
                    AvailabilityState::WaitingForComponents { block, components, missing } => {
                        if root != block.import_data.block_root {
                            r == StateTransition::Rejected(FailureReason::BlockRootMismatch)
                        } else {
                            match add_blobs_seq(components.blobs@, blobs) {
                                Err(i) => rejects_blob(r, i),
                                Ok(m) => after_update(
                                    r,
                                    block,
                                    m,
                                    components.columns@,
                                    missing.blob_indices@,
                                    missing.column_indices@,
                                    missing.can_use_reconstruction,
                                ),
                            }
                        }
                    },
                    AvailabilityState::Reconstructing { .. } => {
                        match add_blobs_seq(Map::empty(), blobs) {
                            Err(i) => rejects_blob(r, i),
                            Ok(m) => waits_for_block(r, root, m, Map::empty()),
                        }
                    },
                    _ => r is Ignored,
                }
            })
    }

    /// Add blobs to the state. The blobs are taken to belong to the block
    /// root of the first one. A terminal state ignores them; otherwise an
    /// empty list leaves the state unchanged.
    pub fn add_blobs(self, blobs: Vec<KzgVerifiedBlob>) -> (r: StateTransition)
        ensures
            self.blobs_step(blobs@, r),
    {
        if self.is_terminal() {
            return StateTransition::Ignored;
        }
        if blobs.len() == 0 {
            return StateTransition::Unchanged(self);
        }
        let blob_block_root = blobs[0].block_root();
        match self {
            AvailabilityState::WaitingForBlock { block_root, mut components } => {
                if blob_block_root == block_root {
                    match Self::add_all_blobs(&mut components, &blobs) {
                        Ok(_) => {},
                        Err(e) => {
                            return StateTransition::Rejected(
                                FailureReason::InvalidBlob(e.to_message()),
                            )
                        },
                    }
                    StateTransition::Changed(
                        AvailabilityState::WaitingForBlock { block_root, components },
                    )
                } else {
                    StateTransition::Rejected(FailureReason::BlockRootMismatch)
                }
            },
            AvailabilityState::WaitingForComponents { block, mut components, missing } => {
                if blob_block_root == block.import_data.block_root {
                    match Self::add_all_blobs(&mut components, &blobs) {
                        Ok(_) => {},
                        Err(e) => {
                            return StateTransition::Rejected(
                                FailureReason::InvalidBlob(e.to_message()),
                            )
                        },
                    }
                    Self::check_completion_after_update(block, components, missing)
                } else {
                    StateTransition::Rejected(FailureReason::BlockRootMismatch)
                }
            },
            AvailabilityState::Reconstructing { .. } => {
                let mut components = VerifiedComponents::new();
                match Self::add_all_blobs(&mut components, &blobs) {
                    Ok(_) => {},
                    Err(e) => {
                        return StateTransition::Rejected(FailureReason::InvalidBlob(e.to_message()))
                    },
                }
                StateTransition::Changed(
                    AvailabilityState::WaitingForBlock { block_root: blob_block_root, components },
                )
            },
            _ => StateTransition::Ignored,
        }
    }

    /// `r` is the transition of this state when `columns` arrive (see [`Self::add_columns`]).
    pub open spec fn columns_step(self, columns: Seq<KzgVerifiedCustodyDataColumn>, r: StateTransition) -> bool {
        &&& (columns.len() == 0 ==> r == StateTransition::Unchanged(self))
        &&& (columns.len() > 0 ==> {
                let root = columns[0].block_root;
                match self {
                    AvailabilityState::WaitingForBlock { block_root, components } => {
                        if root != block_root {
                            r == StateTransition::Rejected(FailureReason::BlockRootMismatch)
                        } else {
                            match add_columns_seq(components.columns@, columns) {
                                Err(i) => rejects_column(r, i),
                                Ok(m) => waits_for_block(r, block_root, components.blobs@, m),
                            }
                        }
                    },
                    AvailabilityState::WaitingForComponents { block, components, missing } => {
                        if root != block.import_data.block_root {
                            r == StateTransition::Rejected(FailureReason::BlockRootMismatch)
                        } else {
                            match add_columns_seq(components.columns@, columns) {
                                Err(i) => rejects_column(r, i),
                                Ok(m) => after_update(
                                    r,
                                    block,
                                    components.blobs@,
                                    m,
                                    missing.blob_indices@,
                                    missing.column_indices@,
                                    missing.can_use_reconstruction,
                                ),
                            }
                        }
                    },
                    _ => r is Ignored,
                }
            })
    }

    /// Add data columns to the state. The columns are taken to belong to the
    /// block root of the first one. An empty list leaves the state unchanged.
    pub fn add_columns(self, columns: Vec<KzgVerifiedCustodyDataColumn>) -> (r: StateTransition)
        ensures
            self.columns_step(columns@, r),
    {
        if columns.len() == 0 {
            return StateTransition::Unchanged(self);
        }
        let column_block_root = columns[0].block_root();
        match self {
            AvailabilityState::WaitingForBlock { block_root, mut components } => {
                if column_block_root == block_root {
                    match Self::add_all_columns(&mut components, &columns) {
                        Ok(_) => {},
                        Err(e) => {
                            return StateTransition::Rejected(
                                FailureReason::InvalidColumn(e.to_message()),
                            )
                        },
                    }
                    StateTransition::Changed(
                        AvailabilityState::WaitingForBlock { block_root, components },
                    )
                } else {
                    StateTransition::Rejected(FailureReason::BlockRootMismatch)
                }
            },
            AvailabilityState::WaitingForComponents { block, mut components, missing } => {
                if column_block_root == block.import_data.block_root {
                    match Self::add_all_columns(&mut components, &columns) {
                        Ok(_) => {},
                        Err(e) => {
                            return StateTransition::Rejected(
                                FailureReason::InvalidColumn(e.to_message()),
                            )
                        },
                    }
                    Self::check_completion_after_update(block, components, missing)
                } else {
                    StateTransition::Rejected(FailureReason::BlockRootMismatch)
                }
            },
            _ => StateTransition::Ignored,
        }
    }

    /// Checks `missing` against `components` for a present block: the block
    /// becomes available, starts reconstruction, or keeps waiting on what is
    /// still missing.
    fn check_completion_after_update(
        block: AvailableExecutedBlock,
        components: VerifiedComponents,
        missing: ComponentRequirements,
    ) -> (r: StateTransition)
        ensures
            after_update(
                r,
                block,
                components.blobs@,
                components.columns@,
                missing.blob_indices@,
                missing.column_indices@,
                missing.can_use_reconstruction,
            ),
    {
        let root = block.import_data.block_root;
        match missing.is_satisfied_by(&components) {
            RequirementCheck::Complete => {
                match AvailableExecutedBlock::from_executed_block_and_components(block, components) {
                    Ok(available_block) => StateTransition::Completed(
                        AvailabilityState::Available {
                            complete: available_block,
                            completion_time: unix_time_millis(),
                        },
                    ),
                    Err(e) => StateTransition::Failed(
                        AvailabilityState::Failed {
                            block_root: root,
                            reason: FailureReason::InvalidTransition(e.to_message()),
                            failed_at: unix_time_millis(),
                        },
                    ),
                }
            },
            RequirementCheck::CanReconstruct => {
                let total = missing.column_indices.len() as u64;
                StateTransition::Changed(
                    AvailabilityState::Reconstructing {
                        block,
                        partial_data: PartialComponents::from_components(components, total),
                        started_at: unix_time_millis(),
                    },
                )
            },
            RequirementCheck::Missing { blobs: missing_blobs, columns: missing_columns } => {
                StateTransition::Changed(
                    AvailabilityState::WaitingForComponents {
                        block,
                        components,
                        missing: ComponentRequirements::new(missing_blobs, missing_columns, true),
                    },
                )
            },
        }
    }

    /// Complete reconstruction with the reconstructed columns. Outside the
    /// reconstructing state the state is returned unchanged.
    #[verifier::loop_isolation(false)]
    pub fn complete_reconstruction(
        self,
        reconstructed_columns: Vec<KzgVerifiedCustodyDataColumn>,
    ) -> (r: StateTransition)
        ensures
            match self {
                AvailabilityState::Reconstructing { block, partial_data, .. } => {
                    let root = block.import_data.block_root;
                    match add_partial_seq(
                        partial_data.columns@,
                        partial_data.total_expected,
                        reconstructed_columns@,
                    ) {
                        Err(i) => fails_reconstruction(
                            r,
                            root,
                            component_error_message(ComponentError::IndexOutOfRange(i)),
                        ),
                        Ok(m) => if m.len() == partial_data.total_expected {
                            r matches StateTransition::Completed(
                                AvailabilityState::Available { complete, .. },
                            ) && completes_with(&complete, &block, Map::empty(), m)
                        } else {
                            fails_reconstruction(
                                r,
                                root,
                                "Reconstruction did not complete successfully"@,
                            )
                        },
                    }
                },
                _ => r == StateTransition::Unchanged(self),
            },
    {
        match self {
            AvailabilityState::Reconstructing { block, mut partial_data, started_at: _ } => {
                let ghost m0 = partial_data.columns@;
                let ghost total = partial_data.total_expected;
                let mut i: usize = 0;
                while i < reconstructed_columns.len()
                    invariant
                        i <= reconstructed_columns@.len(),
                        partial_data.total_expected == total,
                        add_partial_seq(m0, total, reconstructed_columns@.take(i as int)) == Ok::<
                            Map<u64, KzgVerifiedCustodyDataColumn>,
                            u64,
                        >(partial_data.columns@),
                    decreases reconstructed_columns@.len() - i,
                {
                    proof {
                        assert(reconstructed_columns@.take(i as int + 1).drop_last()
                            =~= reconstructed_columns@.take(i as int));
                    }
                    match partial_data.add_column(reconstructed_columns[i]) {
                        Ok(_) => {},
                        Err(e) => {
                            proof {
                                let pre = reconstructed_columns@.take(i as int + 1);
                                assert(pre.last() == reconstructed_columns@[i as int]);
                                assert(add_partial_seq(m0, total, pre) == Err::<
                                    Map<u64, KzgVerifiedCustodyDataColumn>,
                                    u64,
                                >(reconstructed_columns@[i as int].index));
                                lemma_add_partial_seq_err_prefix(
                                    m0,
                                    total,
                                    reconstructed_columns@,
                                    i as int + 1,
                                );
                            }
                            return StateTransition::Failed(
                                AvailabilityState::Failed {
                                    block_root: block.import_data.block_root,
                                    reason: FailureReason::ReconstructionFailed(e.to_message()),
                                    failed_at: unix_time_millis(),
                                },
                            );
                        },
                    }
                    i = i + 1;
                }
                proof {
                    assert(reconstructed_columns@.take(i as int) =~= reconstructed_columns@);
                }
                if partial_data.is_complete() {
                    let components = VerifiedComponents {
                        blobs: HashMap::new(),
                        columns: partial_data.columns,
                    };
                    let root = block.import_data.block_root;
                    match AvailableExecutedBlock::from_executed_block_and_components(
                        block,
                        components,
                    ) {
                        Ok(available_block) => StateTransition::Completed(
                            AvailabilityState::Available {
                                complete: available_block,
                                completion_time: unix_time_millis(),
                            },
                        ),
                        Err(e) => StateTransition::Failed(
                            AvailabilityState::Failed {
                                block_root: root,
                                reason: FailureReason::ReconstructionFailed(e.to_message()),
                                failed_at: unix_time_millis(),
                            },
                        ),
                    }
                } else {
                    StateTransition::Failed(
                        AvailabilityState::Failed {
                            block_root: block.import_data.block_root,
                            reason: FailureReason::ReconstructionFailed(
                                String::from_str("Reconstruction did not complete successfully"),
                            ),
                            failed_at: unix_time_millis(),
                        },
                    )
                }
            },
            other => StateTransition::Unchanged(other),
        }
    }

    /// Mark state as failed, keeping its block root.
    pub fn mark_failed(self, reason: FailureReason) -> (r: StateTransition)
        ensures
            r matches StateTransition::Failed(
                AvailabilityState::Failed { block_root, reason: rr, .. },
            ) && block_root == self.spec_block_root() && rr == reason,
    {
        let block_root = self.block_root();
        StateTransition::Failed(
            AvailabilityState::Failed { block_root, reason, failed_at: unix_time_millis() },
        )
    }
}

/// The indices `0..n` as a vector.
fn indices_below(n: u64) -> (r: Vec<u64>)
    ensures
        r@ == index_range(n as nat),
{
    let mut out: Vec<u64> = Vec::new();
    let mut i: u64 = 0;
    while i < n
        invariant
            i <= n,
            out@ == index_range(i as nat),
        decreases n - i,
    {
        out.push(i);
        i = i + 1;
        proof {
            assert(out@ =~= index_range(i as nat));
        }
    }
    out
}

/// Once adding a prefix of `items` fails, adding all of them fails at the
/// same index.
proof fn lemma_add_blobs_seq_err_prefix(m: Map<u64, KzgVerifiedBlob>, items: Seq<KzgVerifiedBlob>, k: int)
    requires
        0 <= k <= items.len(),
        add_blobs_seq(m, items.take(k)) is Err,
    ensures
        add_blobs_seq(m, items) == add_blobs_seq(m, items.take(k)),
    decreases items.len() - k,
{
    if k < items.len() {
        assert(items.take(k + 1).drop_last() =~= items.take(k));
        lemma_add_blobs_seq_err_prefix(m, items, k + 1);
    } else {
        assert(items.take(k) =~= items);
    }
}

proof fn lemma_add_columns_seq_err_prefix(
    m: Map<u64, KzgVerifiedCustodyDataColumn>,
    items: Seq<KzgVerifiedCustodyDataColumn>,
    k: int,
)
    requires
        0 <= k <= items.len(),
        add_columns_seq(m, items.take(k)) is Err,
    ensures
        add_columns_seq(m, items) == add_columns_seq(m, items.take(k)),
    decreases items.len() - k,
{
    if k < items.len() {
        assert(items.take(k + 1).drop_last() =~= items.take(k));
        lemma_add_columns_seq_err_prefix(m, items, k + 1);
    } else {
        assert(items.take(k) =~= items);
    }
}

proof fn lemma_add_partial_seq_err_prefix(
    m: Map<u64, KzgVerifiedCustodyDataColumn>,
    total: u64,
    items: Seq<KzgVerifiedCustodyDataColumn>,
    k: int,
)
    requires
        0 <= k <= items.len(),
        add_partial_seq(m, total, items.take(k)) is Err,
    ensures
        add_partial_seq(m, total, items) == add_partial_seq(m, total, items.take(k)),
    decreases items.len() - k,
{
    if k < items.len() {
        assert(items.take(k + 1).drop_last() =~= items.take(k));
        lemma_add_partial_seq_err_prefix(m, total, items, k + 1);
    } else {
        assert(items.take(k) =~= items);
    }
}

/// A terminal state (available or failed) takes no more components: a block
/// or blobs are ignored, and data columns are ignored or leave the state as
/// it is.
pub proof fn terminal_states_ignore_components(
    s: AvailabilityState,
    block: AvailableExecutedBlock,
    blobs: Seq<KzgVerifiedBlob>,
    columns: Seq<KzgVerifiedCustodyDataColumn>,
    on_block: StateTransition,
    on_blobs: StateTransition,
    on_columns: StateTransition,
)
    requires
        s is Available || s is Failed,
        s.block_step(block, on_block),
        s.blobs_step(blobs, on_blobs),
        s.columns_step(columns, on_columns),
    ensures
        on_block is Ignored,
        on_blobs is Ignored,
        on_columns is Ignored || on_columns == StateTransition::Unchanged(s),
{
}

} // verus!
