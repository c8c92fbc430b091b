//! The data availability checker: one state machine per block root, fed with
//! blocks, blobs and data columns until the block's data is available.
use vstd::prelude::*;
use crate::blocks::{
    AvailabilityPendingExecutedBlock, AvailableBlock, AvailableBlockData, AvailableBlockView,
    AvailableExecutedBlock, AvailableExecutedBlockView, BlobDataView, BlobIdentifier, BlobSidecar,
    BlockView, DataColumnSidecar, KzgVerifiedBlob, KzgVerifiedCustodyDataColumn,
    MaybeAvailableBlock, RpcBlock, SignedBeaconBlock,
};
use crate::keyed::{lemma_entry_in_map, VecMap};
use crate::primitives::{epoch_of, slot_epoch, ChainSpec, Hash256};
use super::availability::Availability;
use super::error::AvailabilityCheckError;
use super::state_machine::{AvailabilityState, StateTransition};

verus! {

/// Maximum number of availability states to track concurrently.
pub const MAX_AVAILABILITY_STATES: usize = 1024;

/// The states after eviction: when over the limit, exactly the limit is
/// kept, dropping failed states first (every dropped state was failed, or no
/// failed state is left); otherwise nothing changes.
pub open spec fn evicts_old_states(
    before: Map<Hash256, AvailabilityState>,
    after: Map<Hash256, AvailabilityState>,
) -> bool {
    if before.len() <= MAX_AVAILABILITY_STATES {
        after == before
    } else {
        &&& after.submap_of(before)
        &&& after.dom().finite()
        &&& after.len() == MAX_AVAILABILITY_STATES
        &&& (forall|h: Hash256|
            #![trigger before[h]]
            before.contains_key(h) && !after.contains_key(h) ==> before[h] is Failed) || (forall|
            h: Hash256,
        | #[trigger] after.contains_key(h) ==> !(after[h] is Failed))
    }
}

/// The state a component for `root` is given to: the cached one, or else a
/// state waiting for the block with nothing held.
pub open spec fn component_target(
    states: Map<Hash256, AvailabilityState>,
    root: Hash256,
    p: AvailabilityState,
) -> bool {
    if states.contains_key(root) {
        p == states[root]
    } else {
        p matches AvailabilityState::WaitingForBlock { block_root, components } && block_root
            == root && components.blobs@ == Map::<u64, KzgVerifiedBlob>::empty()
            && components.columns@ == Map::<u64, KzgVerifiedCustodyDataColumn>::empty()
    }
}

/// The answer and the states after transition `t` of the state of `root`,
/// which was taken out of `before`: a completed block is answered and not
/// kept; a changed or unchanged state is kept (then old states are evicted)
/// and components are reported missing; a failed state is kept and the block
/// reported unknown; an ignored component leaves the root without a state;
/// a rejected one too, and the block is reported unknown.
pub open spec fn stores(
    before: Map<Hash256, AvailabilityState>,
    root: Hash256,
    t: StateTransition,
    r: Result<Availability, AvailabilityCheckError>,
    after: Map<Hash256, AvailabilityState>,
) -> bool {
    match t {
        StateTransition::Completed(s) => match s {
            AvailabilityState::Available { complete, .. } => {
                &&& r matches Ok(Availability::Available(b)) && *b == complete
                &&& after == before.remove(root)
            },
            _ => {
                &&& r matches Ok(Availability::MissingComponents(h)) && h == root
                &&& evicts_old_states(before.insert(root, s), after)
            },
        },
        StateTransition::Changed(s) => {
            &&& r matches Ok(Availability::MissingComponents(h)) && h == root
            &&& evicts_old_states(before.insert(root, s), after)
        },
        StateTransition::Unchanged(s) => {
            &&& r matches Ok(Availability::MissingComponents(h)) && h == root
            &&& evicts_old_states(before.insert(root, s), after)
        },
        StateTransition::Failed(s) => {
            &&& r matches Err(AvailabilityCheckError::UnknownBlock(h)) && h == root
            &&& after == before.insert(root, s)
        },
        StateTransition::Ignored => {
            &&& r matches Ok(Availability::MissingComponents(h)) && h == root
            &&& after == before.remove(root)
        },
        StateTransition::Rejected(_) => {
            &&& r matches Err(AvailabilityCheckError::UnknownBlock(h)) && h == root
            &&& after == before.remove(root)
        },
    }
}

/// The answer and the states after blobs `items` are given to the state of
/// `root`: nothing changes for no blobs; otherwise the state that takes them
/// (see [`component_target`]) steps and the result is stored (see [`stores`]).
pub open spec fn blobs_put(
    before: Map<Hash256, AvailabilityState>,
    root: Hash256,
    items: Seq<KzgVerifiedBlob>,
    r: Result<Availability, AvailabilityCheckError>,
    after: Map<Hash256, AvailabilityState>,
) -> bool {
    &&& items.len() == 0 ==> after == before && (r matches Ok(Availability::MissingComponents(h))
        && h == root)
    &&& items.len() > 0 ==> exists|p: AvailabilityState, t: StateTransition|
        #[trigger] component_target(before, root, p) && #[trigger] p.blobs_step(items, t) && stores(
            before,
            root,
            t,
            r,
            after,
        )
}

/// The answer and the states after the executed block `pending` is given
/// to the state of its root: in its available form without data (see
/// [`executed_view`]), it goes to the state that takes it (see
/// [`component_target`] and [`AvailabilityState::block_step`]), and the
/// result is stored (see [`stores`]).
pub open spec fn block_put(
    before: Map<Hash256, AvailabilityState>,
    pending: AvailabilityPendingExecutedBlock,
    spec: ChainSpec,
    r: Result<Availability, AvailabilityCheckError>,
    after: Map<Hash256, AvailabilityState>,
) -> bool {
    exists|p: AvailabilityState, b: AvailableExecutedBlock, t: StateTransition|
        #[trigger] component_target(before, pending.import_data.block_root, p) && b@
            == executed_view(pending, spec) && #[trigger] p.block_step(b, t) && stores(
            before,
            pending.import_data.block_root,
            t,
            r,
            after,
        )
}

/// As [`blobs_put`], for data columns.
pub open spec fn columns_put(
    before: Map<Hash256, AvailabilityState>,
    root: Hash256,
    items: Seq<KzgVerifiedCustodyDataColumn>,
    r: Result<Availability, AvailabilityCheckError>,
    after: Map<Hash256, AvailabilityState>,
) -> bool {
    &&& items.len() == 0 ==> after == before && (r matches Ok(Availability::MissingComponents(h))
        && h == root)
    &&& items.len() > 0 ==> exists|p: AvailabilityState, t: StateTransition|
        #[trigger] component_target(before, root, p) && #[trigger] p.columns_step(items, t)
            && stores(before, root, t, r, after)
}

/// The blobs present in `slots`, in order, each stamped as seen at `seen`.
pub open spec fn stamped_blobs(slots: Seq<Option<BlobSidecar>>, seen: u64) -> Seq<KzgVerifiedBlob>
    decreases slots.len(),
{
    if slots.len() == 0 {
        Seq::empty()
    } else {
        let rest = stamped_blobs(slots.drop_last(), seen);
        match slots.last() {
            Some(b) => rest.push(
                KzgVerifiedBlob {
                    block_root: b.block_root,
                    index: b.index,
                    kzg_commitment: b.kzg_commitment,
                    slot: b.slot,
                    seen_timestamp: seen,
                },
            ),
            None => rest,
        }
    }
}

/// The available form of a pending executed block, before its data is
/// known: the block with no data.
pub open spec fn executed_view(pending: AvailabilityPendingExecutedBlock, spec: ChainSpec) -> AvailableExecutedBlockView {
    AvailableExecutedBlockView {
        block: AvailableBlockView {
            block_root: pending.import_data.block_root,
            block: pending.block@,
            data: crate::blocks::BlobDataView::NoData,
            blobs_available_timestamp: None,
            spec,
        },
        import_data: pending.import_data,
        outcome: pending.payload_verification_outcome,
    }
}

/// The earliest epoch whose blocks need a data availability check, at
/// `current_slot`: none when the slot clock cannot be read or Deneb is not
/// scheduled.
pub open spec fn da_boundary(spec: ChainSpec, current_slot: Option<u64>) -> Option<u64> {
    match current_slot {
        Some(slot) => spec.spec_min_epoch_data_availability_boundary(epoch_of(slot)),
        None => None,
    }
}

/// Blocks of `epoch` need a data availability check.
pub open spec fn da_required(spec: ChainSpec, epoch: u64, current_slot: Option<u64>) -> bool {
    da_boundary(spec, current_slot) matches Some(b) && epoch >= b
}

/// A block needs its blobs: it commits to some, and its epoch needs a check
/// and lies before PeerDAS.
pub open spec fn needs_blobs(spec: ChainSpec, block: BlockView, current_slot: Option<u64>) -> bool {
    &&& block.commitments.len() > 0
    &&& da_required(spec, epoch_of(block.slot), current_slot)
    &&& !spec.spec_peer_das_enabled(epoch_of(block.slot))
}

/// A block needs its data columns: it commits to some blobs, and its epoch
/// needs a check and lies in PeerDAS.
pub open spec fn needs_columns(spec: ChainSpec, block: BlockView, current_slot: Option<u64>) -> bool {
    &&& block.commitments.len() > 0
    &&& da_required(spec, epoch_of(block.slot), current_slot)
    &&& spec.spec_peer_das_enabled(epoch_of(block.slot))
}

/// How an RPC block is classified once the KZG check of what it carries gave
/// `check` (see [`DataAvailabilityChecker::kzg_work_for_rpc_block`]): a block
/// that needs blobs is available with them, or pending without them, and a
/// failed check refuses it; likewise for columns; any other block is
/// available with no data.
pub open spec fn rpc_block_outcome(
    spec: ChainSpec,
    block: RpcBlock,
    current_slot: Option<u64>,
    check: Result<(), String>,
    r: Result<MaybeAvailableBlock, AvailabilityCheckError>,
) -> bool {
    if needs_blobs(spec, block.block@, current_slot) {
        match block.blobs {
            Some(list) => match check {
                Err(e) => r matches Err(AvailabilityCheckError::InvalidBlobs(m)) && m == e,
                Ok(_) => r matches Ok(MaybeAvailableBlock::Available(a)) && a@ == (AvailableBlockView {
                    block_root: block.block_root,
                    block: block.block@,
                    data: BlobDataView::Blobs(list@),
                    blobs_available_timestamp: None,
                    spec,
                }),
            },
            None => r matches Ok(MaybeAvailableBlock::AvailabilityPending { block_root, block: b })
                && block_root == block.block_root && b@ == block.block@,
        }
    } else if needs_columns(spec, block.block@, current_slot) {
        match block.custody_columns {
            Some(list) => match check {
                Err(e) => r matches Err(AvailabilityCheckError::InvalidColumn(m)) && m == e,
                Ok(_) => r matches Ok(MaybeAvailableBlock::Available(a)) && a@ == (AvailableBlockView {
                    block_root: block.block_root,
                    block: block.block@,
                    data: BlobDataView::DataColumns(list@),
                    blobs_available_timestamp: None,
                    spec,
                }),
            },
            None => r matches Ok(MaybeAvailableBlock::AvailabilityPending { block_root, block: b })
                && block_root == block.block_root && b@ == block.block@,
        }
    } else {
        r matches Ok(MaybeAvailableBlock::Available(a)) && a@ == (AvailableBlockView {
            block_root: block.block_root,
            block: block.block@,
            data: BlobDataView::NoData,
            blobs_available_timestamp: None,
            spec,
        })
    }
}

/// `v` lists the columns of `m`, each once.
pub open spec fn lists_columns(m: Map<u64, KzgVerifiedCustodyDataColumn>, v: Seq<DataColumnSidecar>) -> bool {
    exists|ks: Seq<u64>|
        ks.to_set() == m.dom() && ks.no_duplicates() && ks.len() == v.len() && forall|i: int|
            0 <= i < ks.len() ==> v[i] == m[#[trigger] ks[i]]
}

/// The blobs of every block in `blocks` that needs and carries them, in
/// order: what a batch's blob check covers.
pub open spec fn batch_blobs(spec: ChainSpec, blocks: Seq<RpcBlock>, current_slot: Option<u64>) -> Seq<
    BlobSidecar,
>
    decreases blocks.len(),
{
    if blocks.len() == 0 {
        Seq::empty()
    } else {
        let rest = batch_blobs(spec, blocks.drop_last(), current_slot);
        let b = blocks.last();
        if needs_blobs(spec, b.block@, current_slot) {
            match b.blobs {
                Some(list) => rest + list@,
                None => rest,
            }
        } else {
            rest
        }
    }
}

/// The columns of every block in `blocks` that needs and carries them, in
/// order (before the cut to the number of columns).
pub open spec fn batch_columns(spec: ChainSpec, blocks: Seq<RpcBlock>, current_slot: Option<u64>) -> Seq<
    DataColumnSidecar,
>
    decreases blocks.len(),
{
    if blocks.len() == 0 {
        Seq::empty()
    } else {
        let rest = batch_columns(spec, blocks.drop_last(), current_slot);
        let b = blocks.last();
        if needs_columns(spec, b.block@, current_slot) {
            match b.custody_columns {
                Some(list) => rest + list@,
                None => rest,
            }
        } else {
            rest
        }
    }
}

/// At most the first `n` items of `s`.
pub open spec fn cut<A>(s: Seq<A>, n: nat) -> Seq<A> {
    if s.len() <= n {
        s
    } else {
        s.take(n as int)
    }
}

/// The block a state holds while it waits in the cache for import: after
/// the block arrived and until it failed.
pub open spec fn cached_block_of(state: AvailabilityState) -> Option<BlockView> {
    match state {
        AvailabilityState::WaitingForComponents { block, .. } => Some(block.block.block@),
        AvailabilityState::Reconstructing { block, .. } => Some(block.block.block@),
        AvailabilityState::Available { complete, .. } => Some(complete.block.block@),
        _ => None,
    }
}

/// Maintenance is due: Deneb is scheduled, the slot clock can be read and
/// its epoch has reached Deneb.
pub open spec fn maintenance_due(spec: ChainSpec, current_slot: Option<u64>) -> bool {
    match (spec.deneb_fork_epoch, current_slot) {
        (Some(deneb), Some(slot)) => epoch_of(slot) >= deneb,
        _ => false,
    }
}

/// What one firing of the cache maintenance did.
#[derive(Debug, Clone, Copy, PartialEq, Eq, Structural)]
pub enum MaintenanceOutcome {
    /// No Deneb fork is scheduled: the maintenance stops for good.
    Stop,
    /// The slot clock could not be read, or Deneb has not been reached.
    Skipped,
    /// Every failed state was forgotten.
    Pruned,
}

/// What an RPC block carries that must pass KZG verification.
#[derive(Debug)]
pub enum KzgWork {
    /// Nothing needs checking.
    Nothing,
    /// These blobs.
    Blobs(Vec<BlobSidecar>),
    /// These data columns.
    Columns(Vec<DataColumnSidecar>),
}

/// The outcome of a reconstruction request.
#[derive(Debug)]
pub enum DataColumnReconstructionResult {
    Success((Availability, Vec<DataColumnSidecar>)),
    NotStarted(&'static str),
    RecoveredColumnsNotImported(&'static str),
}

/// Sizes of the checker's caches.
#[derive(Debug, Clone, Copy, PartialEq, Eq, Structural)]
pub struct DataAvailabilityCheckerMetrics {
    pub state_cache_size: usize,
    pub block_cache_size: usize,
}

/// Manages the availability check of post-Deneb blocks that need blob
/// sidecars or data columns: each block's progress runs through its own
/// state machine, from its first component to being available.
pub struct DataAvailabilityChecker {
    states: VecMap<Hash256, AvailabilityState>,
    custody_columns: u64,
    spec: ChainSpec,
}

impl View for DataAvailabilityChecker {
    type V = Map<Hash256, AvailabilityState>;

    closed spec fn view(&self) -> Map<Hash256, AvailabilityState> {
        self.states@
    }
}

impl DataAvailabilityChecker {
    /// The state list has distinct roots.
    pub closed spec fn wf(&self) -> bool {
        self.states.wf() && self.states@.dom().finite()
    }

    /// The chain parameters.
    pub closed spec fn chain_spec(&self) -> ChainSpec {
        self.spec
    }

    /// The number of data columns a node samples.
    pub closed spec fn sampled_columns(&self) -> u64 {
        self.custody_columns
    }

    /// A checker tracking no block.
    pub fn new(custody_columns: u64, spec: ChainSpec) -> (r: Result<Self, AvailabilityCheckError>)
        ensures
            r matches Ok(c) && c.wf() && c@ == Map::<Hash256, AvailabilityState>::empty()
                && c.chain_spec() == spec && c.sampled_columns() == custody_columns,
    {
        Ok(DataAvailabilityChecker { states: VecMap::new(), custody_columns, spec })
    }

    /// The number of data columns a node samples.
    pub fn custody_context(&self) -> (r: u64)
        ensures
            r == self.sampled_columns(),
    {
        self.custody_columns
    }

    /// The block of `block_root` while it waits in the cache for import:
    /// once it arrived and its data is missing, being reconstructed or
    /// complete; `None` for an unknown root, one still waiting for its block,
    /// or a failed one.
    pub fn get_execution_valid_block(&self, block_root: &Hash256) -> (r: Option<SignedBeaconBlock>)
        requires
            self.wf(),
        ensures
            match r {
                Some(b) => self@.contains_key(*block_root) && cached_block_of(self@[*block_root]) == Some(b@),
                None => !self@.contains_key(*block_root) || cached_block_of(self@[*block_root]) is None,
            },
    {
        match self.states.get(block_root) {
            Some(state) => match state {
                AvailabilityState::WaitingForComponents { block, .. } => Some(block.block.block_cloned()),
                AvailabilityState::Reconstructing { block, .. } => Some(block.block.block_cloned()),
                AvailabilityState::Available { complete, .. } => Some(complete.block.block_cloned()),
                _ => None,
            },
            None => None,
        }
    }

    /// The indices of the blobs held for `block_root`, each once, once its
    /// block arrived and while its state waits for components; `None` when
    /// there is no block component for it.
    pub fn cached_blob_indexes(&self, block_root: &Hash256) -> (r: Option<Vec<u64>>)
        requires
            self.wf(),
        ensures
            match r {
                Some(v) => self@.contains_key(*block_root) && match self@[*block_root] {
                    AvailabilityState::WaitingForComponents { components, .. } => v@.to_set()
                        == components.blobs@.dom() && v@.no_duplicates(),
                    _ => false,
                },
                None => !self@.contains_key(*block_root) || !(self@[*block_root] is WaitingForComponents),
            },
    {
        match self.states.get(block_root) {
            Some(state) => match state {
                AvailabilityState::WaitingForComponents { components, .. } => Some(
                    components.blob_indices(),
                ),
                _ => None,
            },
            None => None,
        }
    }

    /// The indices of the columns held for `block_root`, each once, once its
    /// block arrived and while its state waits for components; `None` when
    /// there is no block component for it.
    pub fn cached_data_column_indexes(&self, block_root: &Hash256) -> (r: Option<Vec<u64>>)
        requires
            self.wf(),
        ensures
            match r {
                Some(v) => self@.contains_key(*block_root) && match self@[*block_root] {
                    AvailabilityState::WaitingForComponents { components, .. } => v@.to_set()
                        == components.columns@.dom() && v@.no_duplicates(),
                    _ => false,
                },
                None => !self@.contains_key(*block_root) || !(self@[*block_root] is WaitingForComponents),
            },
    {
        match self.states.get(block_root) {
            Some(state) => match state {
                AvailabilityState::WaitingForComponents { components, .. } => Some(
                    components.column_indices(),
                ),
                _ => None,
            },
            None => None,
        }
    }

    /// Whether exactly `data_column` is held at its index for `block_root`,
    /// while its state waits for the block or for components.
    pub fn is_data_column_cached(&self, block_root: &Hash256, data_column: &DataColumnSidecar) -> (r:
        bool)
        requires
            self.wf(),
        ensures
            r == (self@.contains_key(*block_root) && match self@[*block_root] {
                AvailabilityState::WaitingForBlock { components, .. } => components.columns@.contains_key(
                    data_column.index,
                ) && components.columns@[data_column.index] == *data_column,
                AvailabilityState::WaitingForComponents { components, .. } => components.columns@.contains_key(
                    data_column.index,
                ) && components.columns@[data_column.index] == *data_column,
                _ => false,
            }),
    {
        match self.states.get(block_root) {
            Some(state) => match state {
                AvailabilityState::WaitingForBlock { components, .. } => {
                    components.has_column(data_column.index) && match components.get_column(
                        data_column.index,
                    ) {
                        Some(cached) => cached == data_column,
                        None => false,
                    }
                },
                AvailabilityState::WaitingForComponents { components, .. } => {
                    components.has_column(data_column.index) && match components.get_column(
                        data_column.index,
                    ) {
                        Some(cached) => cached == data_column,
                        None => false,
                    }
                },
                _ => false,
            },
            None => false,
        }
    }

    /// The blob `blob_id` names, if its root's state waits for the block or
    /// for components and holds it; never an error.
    pub fn get_blob(&self, blob_id: &BlobIdentifier) -> (r: Result<
        Option<BlobSidecar>,
        AvailabilityCheckError,
    >)
        requires
            self.wf(),
        ensures
            r == Ok::<Option<BlobSidecar>, AvailabilityCheckError>(
                if self@.contains_key(blob_id.block_root) {
                    match self@[blob_id.block_root] {
                        AvailabilityState::WaitingForBlock { components, .. } => components.blobs@.get(
                            blob_id.index,
                        ),
                        AvailabilityState::WaitingForComponents { components, .. } => components.blobs@.get(
                            blob_id.index,
                        ),
                        _ => None,
                    }
                } else {
                    None
                },
            ),
    {
        match self.states.get(&blob_id.block_root) {
            Some(state) => match state {
                AvailabilityState::WaitingForBlock { components, .. } => match components.get_blob(
                    blob_id.index,
                ) {
                    Some(blob) => Ok(Some(blob.clone_blob())),
                    None => Ok(None),
                },
                AvailabilityState::WaitingForComponents { components, .. } => {
                    match components.get_blob(blob_id.index) {
                        Some(blob) => Ok(Some(blob.clone_blob())),
                        None => Ok(None),
                    }
                },
                _ => Ok(None),
            },
            None => Ok(None),
        }
    }

    /// The data columns held for `block_root`, each once, while its state
    /// waits for the block or for components.
    pub fn get_data_columns(&self, block_root: Hash256) -> (r: Option<Vec<DataColumnSidecar>>)
        requires
            self.wf(),
        ensures
            match r {
                Some(v) => self@.contains_key(block_root) && match self@[block_root] {
                    AvailabilityState::WaitingForBlock { components, .. } => lists_columns(
                        components.columns@,
                        v@,
                    ),
                    AvailabilityState::WaitingForComponents { components, .. } => lists_columns(
                        components.columns@,
                        v@,
                    ),
                    _ => false,
                },
                None => !self@.contains_key(block_root) || !(self@[block_root] is WaitingForBlock
                    || self@[block_root] is WaitingForComponents),
            },
    {
        match self.states.get(&block_root) {
            Some(state) => match state {
                AvailabilityState::WaitingForBlock { components, .. } => Some(
                    components.column_values(),
                ),
                AvailabilityState::WaitingForComponents { components, .. } => Some(
                    components.column_values(),
                ),
                _ => None,
            },
            None => None,
        }
    }

    /// The number of tracked states.
    pub fn block_cache_size(&self) -> (r: usize)
        requires
            self.wf(),
        ensures
            r == self@.len(),
    {
        self.states.len()
    }

    /// Records an executed block: in its available form without data (see
    /// [`Self::convert_pending_to_executed`]), the block goes to the cached
    /// state of its root or a fresh one (see [`component_target`] and
    /// [`AvailabilityState::block_step`]), and the result is stored (see
    /// [`stores`]).
    pub fn put_pending_executed_block(&mut self, executed_block: AvailabilityPendingExecutedBlock) -> (r:
        Result<Availability, AvailabilityCheckError>)
        requires
            old(self).wf(),
        ensures
            final(self).wf(),
            final(self).chain_spec() == old(self).chain_spec(),
            final(self).sampled_columns() == old(self).sampled_columns(),
            block_put(old(self)@, executed_block, old(self).chain_spec(), r, final(self)@),
    {
        let ghost pending = executed_block;
        let available_executed = match self.convert_pending_to_executed(executed_block) {
            Ok(b) => b,
            Err(e) => {
                return Err(e);
            },
        };
        let block_root = available_executed.import_data.block_root;
        let ghost before = self@;
        let current_state = match self.states.remove(&block_root) {
            Some(state) => state,
            None => AvailabilityState::from_components(block_root),
        };
        let ghost p = current_state;
        let ghost b = available_executed;
        let t = current_state.add_block(available_executed);
        let ghost tt = t;
        let r = self.store_transition(block_root, t, Ghost(before));
        proof {
            assert(component_target(before, pending.import_data.block_root, p));
            assert(p.block_step(b, tt));
            assert(block_put(before, pending, self.spec, r, self@));
        }
        r
    }

    /// Records blobs of `block_root`: they go to the cached state of the root
    /// or a fresh one (see [`component_target`] and
    /// [`AvailabilityState::blobs_step`]), and the result is stored (see
    /// [`stores`]). An empty list changes nothing.
    pub fn put_kzg_verified_blobs(&mut self, block_root: Hash256, blobs: Vec<KzgVerifiedBlob>) -> (r:
        Result<Availability, AvailabilityCheckError>)
        requires
            old(self).wf(),
        ensures
            final(self).wf(),
            final(self).chain_spec() == old(self).chain_spec(),
            final(self).sampled_columns() == old(self).sampled_columns(),
            blobs@.len() == 0 ==> final(self)@ == old(self)@ && (r matches Ok(
                Availability::MissingComponents(h),
            ) && h == block_root),
            blobs@.len() > 0 ==> exists|p: AvailabilityState, t: StateTransition|
                #[trigger] component_target(old(self)@, block_root, p) && #[trigger] p.blobs_step(
                    blobs@,
                    t,
                ) && stores(old(self)@, block_root, t, r, final(self)@),
    {
        if blobs.len() == 0 {
            return Ok(Availability::MissingComponents(block_root));
        }
        let ghost before = self@;
        let ghost items = blobs@;
        let current_state = match self.states.remove(&block_root) {
            Some(state) => state,
            None => AvailabilityState::from_components(block_root),
        };
        let ghost p = current_state;
        let t = current_state.add_blobs(blobs);
        let ghost tt = t;
        let r = self.store_transition(block_root, t, Ghost(before));
        proof {
            assert(component_target(before, block_root, p));
            assert(p.blobs_step(items, tt));
        }
        r
    }

    /// Records data columns of `block_root`: they go to the cached state of
    /// the root or a fresh one (see [`component_target`] and
    /// [`AvailabilityState::columns_step`]), and the result is stored (see
    /// [`stores`]). An empty list changes nothing.
    pub fn put_kzg_verified_data_columns(
        &mut self,
        block_root: Hash256,
        columns: Vec<KzgVerifiedCustodyDataColumn>,
    ) -> (r: Result<Availability, AvailabilityCheckError>)
        requires
            old(self).wf(),
        ensures
            final(self).wf(),
            final(self).chain_spec() == old(self).chain_spec(),
            final(self).sampled_columns() == old(self).sampled_columns(),
            columns@.len() == 0 ==> final(self)@ == old(self)@ && (r matches Ok(
                Availability::MissingComponents(h),
            ) && h == block_root),
            columns@.len() > 0 ==> exists|p: AvailabilityState, t: StateTransition|
                #[trigger] component_target(old(self)@, block_root, p) && #[trigger] p.columns_step(
                    columns@,
                    t,
                ) && stores(old(self)@, block_root, t, r, final(self)@),
    {
        if columns.len() == 0 {
            return Ok(Availability::MissingComponents(block_root));
        }
        let ghost before = self@;
        let ghost items = columns@;
        let current_state = match self.states.remove(&block_root) {
            Some(state) => state,
            None => AvailabilityState::from_components(block_root),
        };
        let ghost p = current_state;
        let t = current_state.add_columns(columns);
        let ghost tt = t;
        let r = self.store_transition(block_root, t, Ghost(before));
        proof {
            assert(component_target(before, block_root, p));
            assert(p.columns_step(items, tt));
        }
        r
    }

    /// Records custody data columns of `block_root` (see
    /// [`Self::put_kzg_verified_data_columns`]).
    pub fn put_kzg_verified_custody_data_columns(
        &mut self,
        block_root: Hash256,
        custody_columns: Vec<KzgVerifiedCustodyDataColumn>,
    ) -> (r: Result<Availability, AvailabilityCheckError>)
        requires
            old(self).wf(),
        ensures
            final(self).wf(),
            final(self).chain_spec() == old(self).chain_spec(),
            final(self).sampled_columns() == old(self).sampled_columns(),
            custody_columns@.len() == 0 ==> final(self)@ == old(self)@ && (r matches Ok(
                Availability::MissingComponents(h),
            ) && h == block_root),
            custody_columns@.len() > 0 ==> exists|p: AvailabilityState, t: StateTransition|
                #[trigger] component_target(old(self)@, block_root, p) && #[trigger] p.columns_step(
                    custody_columns@,
                    t,
                ) && stores(old(self)@, block_root, t, r, final(self)@),
    {
        self.put_kzg_verified_data_columns(block_root, custody_columns)
    }

    /// Caches blobs that passed gossip verification (see [`blobs_put`]).
    pub fn put_gossip_verified_blobs(&mut self, block_root: Hash256, blobs: Vec<KzgVerifiedBlob>) -> (r:
        Result<Availability, AvailabilityCheckError>)
        requires
            old(self).wf(),
        ensures
            final(self).wf(),
            final(self).chain_spec() == old(self).chain_spec(),
            final(self).sampled_columns() == old(self).sampled_columns(),
            blobs_put(old(self)@, block_root, blobs@, r, final(self)@),
    {
        self.put_kzg_verified_blobs(block_root, blobs)
    }

    /// Caches data columns that passed gossip verification, as custody
    /// columns (see [`columns_put`]).
    pub fn put_gossip_verified_data_columns(
        &mut self,
        block_root: Hash256,
        data_columns: Vec<KzgVerifiedCustodyDataColumn>,
    ) -> (r: Result<Availability, AvailabilityCheckError>)
        requires
            old(self).wf(),
        ensures
            final(self).wf(),
            final(self).chain_spec() == old(self).chain_spec(),
            final(self).sampled_columns() == old(self).sampled_columns(),
            columns_put(old(self)@, block_root, data_columns@, r, final(self)@),
    {
        self.put_kzg_verified_data_columns(block_root, data_columns)
    }

    /// Caches blobs received by RPC, given the time they were seen (`None`
    /// when the slot clock cannot be read) and the outcome of their KZG
    /// verification (the first failure's message). A clock failure gives
    /// `SlotClockError` and a failed verification `InvalidBlobs`, both
    /// changing nothing; otherwise the present blobs, stamped as seen, are
    /// cached (see [`blobs_put`]).
    pub fn put_rpc_blobs(
        &mut self,
        block_root: Hash256,
        blobs: Vec<Option<BlobSidecar>>,
        seen_timestamp: Option<u64>,
        kzg_check: Result<(), String>,
    ) -> (r: Result<Availability, AvailabilityCheckError>)
        requires
            old(self).wf(),
        ensures
            final(self).wf(),
            final(self).chain_spec() == old(self).chain_spec(),
            final(self).sampled_columns() == old(self).sampled_columns(),
            seen_timestamp is None ==> final(self)@ == old(self)@ && r matches Err(
                AvailabilityCheckError::SlotClockError,
            ),
            seen_timestamp is Some ==> match kzg_check {
                Err(e) => final(self)@ == old(self)@ && (r matches Err(
                    AvailabilityCheckError::InvalidBlobs(m),
                ) && m@ == e@),
                Ok(_) => blobs_put(
                    old(self)@,
                    block_root,
                    stamped_blobs(blobs@, seen_timestamp->0),
                    r,
                    final(self)@,
                ),
            },
    {
        let seen = match seen_timestamp {
            Some(t) => t,
            None => {
                return Err(AvailabilityCheckError::SlotClockError);
            },
        };
        match kzg_check {
            Err(e) => {
                return Err(AvailabilityCheckError::InvalidBlobs(e));
            },
            Ok(_) => {},
        }
        let mut verified: Vec<KzgVerifiedBlob> = Vec::new();
        let mut i: usize = 0;
        while i < blobs.len()
            invariant
                i <= blobs@.len(),
                verified@ == stamped_blobs(blobs@.take(i as int), seen),
            decreases blobs@.len() - i,
        {
            proof {
                assert(blobs@.take(i as int + 1).drop_last() =~= blobs@.take(i as int));
            }
            match &blobs[i] {
                Some(b) => {
                    verified.push(
                        KzgVerifiedBlob {
                            block_root: b.block_root,
                            index: b.index,
                            kzg_commitment: b.kzg_commitment,
                            slot: b.slot,
                            seen_timestamp: seen,
                        },
                    );
                },
                None => {},
            }
            i = i + 1;
        }
        proof {
            assert(blobs@.take(i as int) =~= blobs@);
        }
        self.put_kzg_verified_blobs(block_root, verified)
    }

    /// Caches custody columns received by RPC, given the outcome of their
    /// batch KZG verification: a failure gives `InvalidColumn` and changes
    /// nothing; otherwise the columns are cached (see [`columns_put`]).
    pub fn put_rpc_custody_columns(
        &mut self,
        block_root: Hash256,
        custody_columns: Vec<DataColumnSidecar>,
        kzg_check: Result<(), String>,
    ) -> (r: Result<Availability, AvailabilityCheckError>)
        requires
            old(self).wf(),
        ensures
            final(self).wf(),
            final(self).chain_spec() == old(self).chain_spec(),
            final(self).sampled_columns() == old(self).sampled_columns(),
            match kzg_check {
                Err(e) => final(self)@ == old(self)@ && (r matches Err(
                    AvailabilityCheckError::InvalidColumn(m),
                ) && m@ == e@),
                Ok(_) => columns_put(old(self)@, block_root, custody_columns@, r, final(self)@),
            },
    {
        match kzg_check {
            Err(e) => Err(AvailabilityCheckError::InvalidColumn(e)),
            Ok(_) => self.put_kzg_verified_data_columns(block_root, custody_columns),
        }
    }

    /// The available form of a pending executed block, with no data yet
    /// (see [`executed_view`]); never fails.
    fn convert_pending_to_executed(&self, pending: AvailabilityPendingExecutedBlock) -> (r: Result<
        AvailableExecutedBlock,
        AvailabilityCheckError,
    >)
        ensures
            r matches Ok(b) && b@ == executed_view(pending, self.chain_spec()),
    {
        let available_block = AvailableBlock::__new_for_testing(
            pending.import_data.block_root,
            pending.block.clone_block(),
            AvailableBlockData::NoData,
            self.spec,
        );
        Ok(
            AvailableExecutedBlock::new(
                available_block,
                pending.import_data,
                pending.payload_verification_outcome,
            ),
        )
    }

    /// Stores the result of transition `t` of the state of `block_root`,
    /// which was taken out of the checker (see [`stores`]).
    fn store_transition(
        &mut self,
        block_root: Hash256,
        t: StateTransition,
        Ghost(before): Ghost<Map<Hash256, AvailabilityState>>,
    ) -> (r: Result<Availability, AvailabilityCheckError>)
        requires
            old(self).wf(),
            old(self)@ == before.remove(block_root),
        ensures
            final(self).wf(),
            final(self).chain_spec() == old(self).chain_spec(),
            final(self).sampled_columns() == old(self).sampled_columns(),
            stores(before, block_root, t, r, final(self)@),
    {
        match t {
            StateTransition::Completed(state) => match state {
                AvailabilityState::Available { complete, .. } => {
                    Ok(Availability::Available(Box::new(complete)))
                },
                other => {
                    let ghost s = other;
                    self.states.insert(block_root, other);
                    proof {
                        assert(self@ =~= before.insert(block_root, s));
                    }
                    self.maybe_evict_old_states();
                    Ok(Availability::MissingComponents(block_root))
                },
            },
            StateTransition::Changed(new_state) => {
                let ghost s = new_state;
                self.states.insert(block_root, new_state);
                proof {
                    assert(self@ =~= before.insert(block_root, s));
                }
                self.maybe_evict_old_states();
                Ok(Availability::MissingComponents(block_root))
            },
            StateTransition::Unchanged(new_state) => {
                let ghost s = new_state;
                self.states.insert(block_root, new_state);
                proof {
                    assert(self@ =~= before.insert(block_root, s));
                }
                self.maybe_evict_old_states();
                Ok(Availability::MissingComponents(block_root))
            },
            StateTransition::Failed(failed_state) => {
                let ghost s = failed_state;
                self.states.insert(block_root, failed_state);
                proof {
                    assert(self@ =~= before.insert(block_root, s));
                }
                Err(AvailabilityCheckError::UnknownBlock(block_root))
            },
            StateTransition::Ignored => Ok(Availability::MissingComponents(block_root)),
            StateTransition::Rejected(_reason) => Err(AvailabilityCheckError::UnknownBlock(block_root)),
        }
    }

    /// Evicts states while over [`MAX_AVAILABILITY_STATES`]: failed states
    /// first, in storage order, then the first states in storage order (see
    /// [`evicts_old_states`]).
    fn maybe_evict_old_states(&mut self)
        requires
            old(self).wf(),
        ensures
            final(self).wf(),
            evicts_old_states(old(self)@, final(self)@),
            final(self).chain_spec() == old(self).chain_spec(),
            final(self).sampled_columns() == old(self).sampled_columns(),
    {
        let ghost before = self@;
        let before_len = self.states.len();
        if before_len <= MAX_AVAILABILITY_STATES {
            return;
        }
        let excess = before_len - MAX_AVAILABILITY_STATES;
        let ghost entries = self.states.spec_entries();
        let mut to_remove: Vec<Hash256> = Vec::new();
        let mut i: usize = 0;
        let mut enough = false;
        while i < before_len
            invariant
                self@ == before,
                self.wf(),
                self.states.spec_entries() == entries,
                entries.len() == before_len,
                before_len == before.len(),
                excess == before_len - MAX_AVAILABILITY_STATES,
                i <= before_len,
                to_remove@.len() <= i,
                to_remove@.no_duplicates(),
                enough ==> to_remove@.len() == excess,
                !enough ==> to_remove@.len() < excess,
                forall|j: int|
                    0 <= j < to_remove@.len() ==> before.contains_key(#[trigger] to_remove@[j])
                        && before[to_remove@[j]] is Failed,
                !enough ==> forall|j: int|
                    0 <= j < i && (#[trigger] entries[j]).1 is Failed ==> to_remove@.contains(
                        entries[j].0,
                    ),
                forall|j: int|
                    #![trigger to_remove@[j]]
                    0 <= j < to_remove@.len() ==> exists|a: int|
                        0 <= a < i && (#[trigger] entries[a]).0 == to_remove@[j],
            ensures
                !enough ==> i == before_len,
            decreases before_len - i,
        {
            if enough {
                break;
            }
            let entry = self.states.entry_at(i);
            let is_failed = match &entry.1 {
                AvailabilityState::Failed { .. } => true,
                _ => false,
            };
            proof {
                lemma_entry_in_map(entries, i as int);
            }
            let ghost prev = to_remove@;
            if is_failed {
                proof {
                    assert forall|j: int| 0 <= j < to_remove@.len() implies to_remove@[j] != entry.0 by {
                        let a = choose|a: int| 0 <= a < i && (#[trigger] entries[a]).0 == to_remove@[j];
                        assert(a != i);
                    }
                }
                to_remove.push(entry.0);
                proof {
                    assert forall|jj: int|
                        0 <= jj < i + 1 && (#[trigger] entries[jj]).1 is Failed implies to_remove@.contains(
                        entries[jj].0,
                    ) by {
                        if jj == i {
                            assert(to_remove@[prev.len() as int] == entries[jj].0);
                        } else if !enough {
                            let a = choose|a: int| 0 <= a < prev.len() && prev[a] == entries[jj].0;
                            assert(to_remove@[a] == prev[a]);
                        }
                    }
                    assert forall|jj: int|
                        #![trigger to_remove@[jj]]
                        0 <= jj < to_remove@.len() implies exists|a: int|
                        0 <= a < i + 1 && (#[trigger] entries[a]).0 == to_remove@[jj] by {
                        if jj < prev.len() {
                            assert(to_remove@[jj] == prev[jj]);
                        } else {
                            assert(entries[i as int].0 == to_remove@[jj]);
                        }
                    }
                }
                if before_len - to_remove.len() <= MAX_AVAILABILITY_STATES {
                    enough = true;
                }
            }
            i = i + 1;
        }
        let ghost removed_failed = to_remove@;
        let mut j: usize = 0;
        while j < to_remove.len()
            invariant
                self.wf(),
                self.chain_spec() == old(self).chain_spec(),
                self.sampled_columns() == old(self).sampled_columns(),
                to_remove@ == removed_failed,
                removed_failed.no_duplicates(),
                forall|k: int|
                    0 <= k < removed_failed.len() ==> before.contains_key(
                        #[trigger] removed_failed[k],
                    ),
                j <= removed_failed.len(),
                self@ == before.remove_keys(removed_failed.take(j as int).to_set()),
                self@.len() == before.len() - j,
            decreases removed_failed.len() - j,
        {
            let h = to_remove[j];
            proof {
                assert(!removed_failed.take(j as int).contains(h)) by {
                    if removed_failed.take(j as int).contains(h) {
                        let a = choose|a: int| 0 <= a < j && #[trigger] removed_failed.take(j as int)[a] == h;
                        assert(removed_failed[a] == removed_failed[j as int]);
                    }
                }
                assert(self@.contains_key(h));
            }
            self.states.remove(&h);
            proof {
                assert(removed_failed.take(j + 1) =~= removed_failed.take(j as int).push(h));
                removed_failed.take(j as int).lemma_push_to_set_commute(h);
                assert(self@ =~= before.remove_keys(removed_failed.take(j + 1).to_set()));
            }
            j = j + 1;
        }
        proof {
            assert(removed_failed.take(j as int) =~= removed_failed);
        }
        let ghost after_failed = self@;
        let len = self.states.len();
        if len > MAX_AVAILABILITY_STATES {
            let extra = len - MAX_AVAILABILITY_STATES;
            let keys = self.states.keys();
            let ghost ks = keys@;
            proof {
                assert(ks.len() == len);
            }
            let mut k: usize = 0;
            while k < extra
                invariant
                    self.wf(),
                    self.chain_spec() == old(self).chain_spec(),
                    self.sampled_columns() == old(self).sampled_columns(),
                    keys@ == ks,
                    k <= extra,
                    extra < ks.len(),
                    ks.no_duplicates(),
                    forall|a: int| 0 <= a < ks.len() ==> after_failed.contains_key(#[trigger] ks[a]),
                    self@ == after_failed.remove_keys(ks.take(k as int).to_set()),
                    self@.len() == after_failed.len() - k,
                decreases extra - k,
            {
                let h = keys[k];
                proof {
                    assert(!ks.take(k as int).contains(h)) by {
                        if ks.take(k as int).contains(h) {
                            let a = choose|a: int| 0 <= a < k && #[trigger] ks.take(k as int)[a] == h;
                            assert(ks[a] == ks[k as int]);
                        }
                    }
                    assert(self@.contains_key(h));
                }
                self.states.remove(&h);
                proof {
                    assert(ks.take(k + 1) =~= ks.take(k as int).push(h));
                    ks.take(k as int).lemma_push_to_set_commute(h);
                    assert(self@ =~= after_failed.remove_keys(ks.take(k + 1).to_set()));
                }
                k = k + 1;
            }
        }
        proof {
            let set = removed_failed.to_set();
            assert(after_failed.submap_of(before));
            assert(self@.submap_of(after_failed));
            if enough {
                assert(self@ == after_failed);
                assert forall|h: Hash256|
                    before.contains_key(h) && !self@.contains_key(h) implies #[trigger] before[h] is Failed by {
                    assert(set.contains(h));
                    let a = choose|a: int| 0 <= a < removed_failed.len() && removed_failed[a] == h;
                    assert(before[removed_failed[a]] is Failed);
                }
            } else {
                assert forall|h: Hash256| #[trigger] self@.contains_key(h) implies !(self@[h] is Failed) by {
                    assert(after_failed.contains_key(h));
                    assert(before.contains_key(h));
                    let a = choose|a: int| 0 <= a < entries.len() && (#[trigger] entries[a]).0 == h;
                    lemma_entry_in_map(entries, a);
                    if before[h] is Failed {
                        assert(removed_failed.contains(h));
                        assert(set.contains(h));
                    }
                }
            }
        }
    }

    /// The earliest epoch whose blocks need a data availability check at
    /// `current_slot` (see [`da_boundary`]).
    pub fn data_availability_boundary(&self, current_slot: Option<u64>) -> (r: Option<u64>)
        ensures
            r == da_boundary(self.chain_spec(), current_slot),
    {
        match current_slot {
            Some(slot) => self.spec.min_epoch_data_availability_boundary(slot_epoch(slot)),
            None => None,
        }
    }

    /// Whether blocks of `block_epoch` need a data availability check (see
    /// [`da_required`]).
    pub fn da_check_required_for_epoch(&self, block_epoch: u64, current_slot: Option<u64>) -> (r:
        bool)
        ensures
            r == da_required(self.chain_spec(), block_epoch, current_slot),
    {
        match self.data_availability_boundary(current_slot) {
            Some(da_epoch) => block_epoch >= da_epoch,
            None => false,
        }
    }

    /// Whether blocks of `epoch` need their blobs: a check is required and
    /// the epoch lies before PeerDAS.
    pub fn blobs_required_for_epoch(&self, epoch: u64, current_slot: Option<u64>) -> (r: bool)
        ensures
            r == (da_required(self.chain_spec(), epoch, current_slot)
                && !self.chain_spec().spec_peer_das_enabled(epoch)),
    {
        self.da_check_required_for_epoch(epoch, current_slot) && !self.spec.is_peer_das_enabled_for_epoch(
            epoch,
        )
    }

    /// Whether blocks of `epoch` need their data columns: a check is
    /// required and the epoch lies in PeerDAS.
    pub fn data_columns_required_for_epoch(&self, epoch: u64, current_slot: Option<u64>) -> (r:
        bool)
        ensures
            r == (da_required(self.chain_spec(), epoch, current_slot)
                && self.chain_spec().spec_peer_das_enabled(epoch)),
    {
        self.da_check_required_for_epoch(epoch, current_slot) && self.spec.is_peer_das_enabled_for_epoch(
            epoch,
        )
    }

    /// Whether `block` needs its blobs (see [`needs_blobs`]).
    fn blobs_required_for_block(&self, block: &SignedBeaconBlock, current_slot: Option<u64>) -> (r:
        bool)
        ensures
            r == needs_blobs(self.chain_spec(), block@, current_slot),
    {
        block.num_expected_blobs() > 0 && self.blobs_required_for_epoch(block.epoch(), current_slot)
    }

    /// Whether `block` needs its data columns (see [`needs_columns`]).
    fn data_columns_required_for_block(&self, block: &SignedBeaconBlock, current_slot: Option<u64>) -> (r:
        bool)
        ensures
            r == needs_columns(self.chain_spec(), block@, current_slot),
    {
        block.num_expected_blobs() > 0 && self.data_columns_required_for_epoch(
            block.epoch(),
            current_slot,
        )
    }

    /// Whether the epoch of `current_slot` has reached Deneb; false when the
    /// slot clock cannot be read.
    pub fn is_deneb(&self, current_slot: Option<u64>) -> (r: bool)
        ensures
            r == (current_slot matches Some(slot) && self.chain_spec().spec_deneb_enabled(
                epoch_of(slot),
            )),
    {
        match current_slot {
            Some(slot) => match self.spec.deneb_fork_epoch {
                Some(deneb_epoch) => slot_epoch(slot) >= deneb_epoch,
                None => false,
            },
            None => false,
        }
    }

    /// The cache sizes: no separate state cache, and the number of states.
    pub fn metrics(&self) -> (r: DataAvailabilityCheckerMetrics)
        requires
            self.wf(),
        ensures
            r.state_cache_size == 0,
            r.block_cache_size == self@.len(),
    {
        DataAvailabilityCheckerMetrics { state_cache_size: 0, block_cache_size: self.states.len() }
    }

    /// Reconstruction is not started by this checker.
    pub fn reconstruct_data_columns(&self, _block_root: &Hash256) -> (r: Result<
        DataColumnReconstructionResult,
        AvailabilityCheckError,
    >)
        ensures
            r matches Ok(DataColumnReconstructionResult::NotStarted(m)) && m@
                == "Reconstruction not implemented yet"@,
    {
        Ok(DataColumnReconstructionResult::NotStarted("Reconstruction not implemented yet"))
    }

    /// What of `block` must pass KZG verification: its blobs when it needs
    /// them and carries them, else its columns when it needs them and carries
    /// them, else nothing.
    pub fn kzg_work_for_rpc_block(&self, block: &RpcBlock, current_slot: Option<u64>) -> (r: KzgWork)
        ensures
            needs_blobs(self.chain_spec(), block.block@, current_slot) ==> match block.blobs {
                Some(list) => r matches KzgWork::Blobs(v) && v@ == list@,
                None => r is Nothing,
            },
            !needs_blobs(self.chain_spec(), block.block@, current_slot) && needs_columns(
                self.chain_spec(),
                block.block@,
                current_slot,
            ) ==> match block.custody_columns {
                Some(list) => r matches KzgWork::Columns(v) && v@ == list@,
                None => r is Nothing,
            },
            !needs_blobs(self.chain_spec(), block.block@, current_slot) && !needs_columns(
                self.chain_spec(),
                block.block@,
                current_slot,
            ) ==> r is Nothing,
    {
        if self.blobs_required_for_block(block.as_block(), current_slot) {
            return match block.blobs() {
                Some(list) => KzgWork::Blobs(list.clone()),
                None => KzgWork::Nothing,
            };
        }
        if self.data_columns_required_for_block(block.as_block(), current_slot) {
            return match block.custody_columns() {
                Some(list) => KzgWork::Columns(list.clone()),
                None => KzgWork::Nothing,
            };
        }
        KzgWork::Nothing
    }

    /// What of a batch of RPC blocks must pass KZG verification: the blobs
    /// of the blocks that need them (see [`batch_blobs`]), and the columns of
    /// those that need them, cut to the number of columns (see
    /// [`batch_columns`]).
    pub fn kzg_work_for_rpc_blocks(&self, blocks: &Vec<RpcBlock>, current_slot: Option<u64>) -> (r: (
        Vec<BlobSidecar>,
        Vec<DataColumnSidecar>,
    ))
        ensures
            r.0@ == batch_blobs(self.chain_spec(), blocks@, current_slot),
            r.1@ == cut(
                batch_columns(self.chain_spec(), blocks@, current_slot),
                self.chain_spec().number_of_columns as usize as nat,
            ),
    {
        let mut all_blobs: Vec<BlobSidecar> = Vec::new();
        let mut all_columns: Vec<DataColumnSidecar> = Vec::new();
        let mut i: usize = 0;
        while i < blocks.len()
            invariant
                i <= blocks@.len(),
                all_blobs@ == batch_blobs(self.spec, blocks@.take(i as int), current_slot),
                all_columns@ == batch_columns(self.spec, blocks@.take(i as int), current_slot),
            decreases blocks@.len() - i,
        {
            let block = &blocks[i];
            proof {
                assert(blocks@.take(i + 1).drop_last() =~= blocks@.take(i as int));
            }
            if self.blobs_required_for_block(block.as_block(), current_slot) {
                match block.blobs() {
                    Some(list) => {
                        let mut j: usize = 0;
                        let ghost start = all_blobs@;
                        while j < list.len()
                            invariant
                                j <= list@.len(),
                                all_blobs@ == start + list@.take(j as int),
                            decreases list@.len() - j,
                        {
                            all_blobs.push(list[j]);
                            j = j + 1;
                            proof {
                                assert(all_blobs@ =~= start + list@.take(j as int));
                            }
                        }
                        proof {
                            assert(list@.take(j as int) =~= list@);
                        }
                    },
                    None => {},
                }
            }
            if self.data_columns_required_for_block(block.as_block(), current_slot) {
                match block.custody_columns() {
                    Some(list) => {
                        let mut j: usize = 0;
                        let ghost start = all_columns@;
                        while j < list.len()
                            invariant
                                j <= list@.len(),
                                all_columns@ == start + list@.take(j as int),
                            decreases list@.len() - j,
                        {
                            all_columns.push(list[j]);
                            j = j + 1;
                            proof {
                                assert(all_columns@ =~= start + list@.take(j as int));
                            }
                        }
                        proof {
                            assert(list@.take(j as int) =~= list@);
                        }
                    },
                    None => {},
                }
            }
            i = i + 1;
        }
        proof {
            assert(blocks@.take(i as int) =~= blocks@);
        }
        let max_len = self.spec.number_of_columns as usize;
        all_columns.truncate(max_len);
        (all_blobs, all_columns)
    }

    /// Classifies a batch of RPC blocks once the KZG checks of the batch's
    /// blobs and columns (see [`Self::kzg_work_for_rpc_blocks`]) gave
    /// `blobs_check` and `columns_check`: a failed check of a non-empty part
    /// refuses the batch (blobs first); otherwise each block is classified as
    /// alone with a passed check (see [`rpc_block_outcome`]).
    pub fn verify_kzg_for_rpc_blocks(
        &self,
        blocks: Vec<RpcBlock>,
        current_slot: Option<u64>,
        blobs_check: Result<(), String>,
        columns_check: Result<(), String>,
    ) -> (r: Result<Vec<MaybeAvailableBlock>, AvailabilityCheckError>)
        ensures
            ({
                let blobs = batch_blobs(self.chain_spec(), blocks@, current_slot);
                let columns = cut(
                    batch_columns(self.chain_spec(), blocks@, current_slot),
                    self.chain_spec().number_of_columns as usize as nat,
                );
                if blobs.len() > 0 && blobs_check is Err {
                    r matches Err(AvailabilityCheckError::InvalidBlobs(m)) && m
                        == blobs_check->Err_0
                } else if columns.len() > 0 && columns_check is Err {
                    r matches Err(AvailabilityCheckError::InvalidColumn(m)) && m
                        == columns_check->Err_0
                } else {
                    r matches Ok(v) && v@.len() == blocks@.len() && forall|i: int|
                        0 <= i < blocks@.len() ==> rpc_block_outcome(
                            self.chain_spec(),
                            #[trigger] blocks@[i],
                            current_slot,
                            Ok(()),
                            Ok(v@[i]),
                        )
                }
            }),
    {
        let (all_blobs, all_columns) = self.kzg_work_for_rpc_blocks(&blocks, current_slot);
        if all_blobs.len() > 0 {
            match blobs_check {
                Err(e) => {
                    return Err(AvailabilityCheckError::InvalidBlobs(e));
                },
                Ok(_) => {},
            }
        }
        if all_columns.len() > 0 {
            match columns_check {
                Err(e) => {
                    return Err(AvailabilityCheckError::InvalidColumn(e));
                },
                Ok(_) => {},
            }
        }
        let ghost all = blocks@;
        let mut rest = blocks;
        let total = rest.len();
        let mut results: Vec<MaybeAvailableBlock> = Vec::new();
        let mut i: usize = 0;
        while rest.len() > 0
            invariant
                i <= all.len(),
                all.len() == total,
                rest@ == all.skip(i as int),
                results@.len() == i,
                forall|j: int|
                    0 <= j < i ==> rpc_block_outcome(
                        self.chain_spec(),
                        #[trigger] all[j],
                        current_slot,
                        Ok(()),
                        Ok(results@[j]),
                    ),
            decreases rest@.len(),
        {
            let block = rest.remove(0);
            proof {
                assert(block == all[i as int]);
            }
            let classified = self.verify_kzg_for_rpc_block(block, current_slot, Ok(()));
            match classified {
                Ok(maybe_available_block) => {
                    results.push(maybe_available_block);
                },
                Err(_) => {
                    proof {
                        assert(false);
                    }
                },
            }
            i = i + 1;
            proof {
                assert(rest@ =~= all.skip(i as int));
            }
        }
        Ok(results)
    }

    /// Classifies an RPC block once what it carries has been through KZG
    /// verification with outcome `kzg_check` (see [`rpc_block_outcome`]).
    /// The blobs or columns it needs are taken as complete.
    pub fn verify_kzg_for_rpc_block(
        &self,
        block: RpcBlock,
        current_slot: Option<u64>,
        kzg_check: Result<(), String>,
    ) -> (r: Result<MaybeAvailableBlock, AvailabilityCheckError>)
        ensures
            rpc_block_outcome(self.chain_spec(), block, current_slot, kzg_check, r),
    {
        let ghost whole = block;
        let (block_root, block, blobs, data_columns) = block.deconstruct();
        if self.blobs_required_for_block(&block, current_slot) {
            return match blobs {
                Some(blob_list) => match kzg_check {
                    Err(e) => Err(AvailabilityCheckError::InvalidBlobs(e)),
                    Ok(_) => Ok(
                        MaybeAvailableBlock::Available(
                            AvailableBlock::__new_for_testing(
                                block_root,
                                block,
                                AvailableBlockData::Blobs(blob_list),
                                self.spec,
                            ),
                        ),
                    ),
                },
                None => Ok(MaybeAvailableBlock::AvailabilityPending { block_root, block }),
            };
        }
        if self.data_columns_required_for_block(&block, current_slot) {
            return match data_columns {
                Some(data_column_list) => match kzg_check {
                    Err(e) => Err(AvailabilityCheckError::InvalidColumn(e)),
                    Ok(_) => Ok(
                        MaybeAvailableBlock::Available(
                            AvailableBlock::__new_for_testing(
                                block_root,
                                block,
                                AvailableBlockData::DataColumns(data_column_list),
                                self.spec,
                            ),
                        ),
                    ),
                },
                None => Ok(MaybeAvailableBlock::AvailabilityPending { block_root, block }),
            };
        }
        Ok(
            MaybeAvailableBlock::Available(
                AvailableBlock::__new_for_testing(
                    block_root,
                    block,
                    AvailableBlockData::NoData,
                    self.spec,
                ),
            ),
        )
    }

    /// One firing of the cache maintenance: without a Deneb fork it stops;
    /// when the slot clock cannot be read or the epoch is before Deneb it
    /// skips; otherwise it forgets every failed state.
    pub fn run_maintenance(&mut self, current_slot: Option<u64>) -> (r: MaintenanceOutcome)
        requires
            old(self).wf(),
        ensures
            final(self).wf(),
            final(self).chain_spec() == old(self).chain_spec(),
            final(self).sampled_columns() == old(self).sampled_columns(),
            old(self).chain_spec().deneb_fork_epoch is None ==> r is Stop && final(self)@ == old(
                self,
            )@,
            old(self).chain_spec().deneb_fork_epoch is Some && !maintenance_due(
                old(self).chain_spec(),
                current_slot,
            ) ==> r is Skipped && final(self)@ == old(self)@,
            maintenance_due(old(self).chain_spec(), current_slot) ==> r is Pruned && final(self)@
                == old(self)@.restrict(
                old(self)@.dom().filter(|h: Hash256| !(old(self)@[h] is Failed)),
            ),
    {
        let deneb_fork_epoch = match self.spec.deneb_fork_epoch {
            Some(e) => e,
            None => {
                return MaintenanceOutcome::Stop;
            },
        };
        let current_epoch = match current_slot {
            Some(slot) => slot_epoch(slot),
            None => {
                return MaintenanceOutcome::Skipped;
            },
        };
        if current_epoch < deneb_fork_epoch {
            return MaintenanceOutcome::Skipped;
        }
        let ghost before = self@;
        let keys = self.states.keys();
        let ghost ks = keys@;
        proof {
            assert forall|h: Hash256| before.contains_key(h) <==> ks.contains(h) by {
                if before.contains_key(h) {
                    let i = choose|i: int|
                        0 <= i < self.states.spec_entries().len() && (
                        #[trigger] self.states.spec_entries()[i]).0 == h;
                    assert(ks[i] == h);
                }
                if ks.contains(h) {
                    let i = choose|i: int| 0 <= i < ks.len() && #[trigger] ks[i] == h;
                    assert(self.states.spec_entries()[i].0 == h);
                }
            }
        }
        let mut i: usize = 0;
        while i < keys.len()
            invariant
                self.wf(),
                self.chain_spec() == old(self).chain_spec(),
                self.sampled_columns() == old(self).sampled_columns(),
                keys@ == ks,
                i <= ks.len(),
                forall|h: Hash256| before.contains_key(h) <==> ks.contains(h),
                self@ == before.restrict(
                    before.dom().filter(
                        |h: Hash256| !(before[h] is Failed && ks.take(i as int).contains(h)),
                    ),
                ),
            decreases ks.len() - i,
        {
            let h = keys[i];
            let is_failed = match self.states.get(&h) {
                Some(AvailabilityState::Failed { .. }) => true,
                _ => false,
            };
            if is_failed {
                self.states.remove(&h);
            }
            proof {
                let t0 = ks.take(i as int);
                let t1 = ks.take(i + 1);
                assert(t1 =~= t0.push(h));
                assert(ks.contains(h)) by {
                    assert(ks[i as int] == h);
                }
                assert forall|x: Hash256| #[trigger] t1.contains(x) <==> (t0.contains(x) || x == h) by {
                    if t1.contains(x) {
                        let a = choose|a: int| 0 <= a < t1.len() && #[trigger] t1[a] == x;
                        if a < i {
                            assert(t0[a] == x);
                        }
                    }
                    if t0.contains(x) {
                        let a = choose|a: int| 0 <= a < t0.len() && #[trigger] t0[a] == x;
                        assert(t1[a] == x);
                    }
                    if x == h {
                        assert(t1[i as int] == x);
                    }
                }
                assert(self@ =~= before.restrict(
                    before.dom().filter(|x: Hash256| !(before[x] is Failed && t1.contains(x))),
                ));
            }
            i = i + 1;
        }
        proof {
            assert(ks.take(i as int) =~= ks);
            assert(self@ =~= before.restrict(
                before.dom().filter(|h: Hash256| !(before[h] is Failed)),
            ));
        }
        MaintenanceOutcome::Pruned
    }

    /// Forgets the state of `block_root`.
    pub fn remove_pending_components(&mut self, block_root: Hash256)
        requires
            old(self).wf(),
        ensures
            final(self).wf(),
            final(self)@ == old(self)@.remove(block_root),
            final(self).chain_spec() == old(self).chain_spec(),
            final(self).sampled_columns() == old(self).sampled_columns(),
    {
        self.states.remove(&block_root);
    }
}

/// Storing the outcome of a component keeps the checker within
/// [`MAX_AVAILABILITY_STATES`] states, unless the outcome is a failure: a
/// failed state is stored without eviction.
pub proof fn stores_within_state_limit(
    before: Map<Hash256, AvailabilityState>,
    root: Hash256,
    t: StateTransition,
    r: Result<Availability, AvailabilityCheckError>,
    after: Map<Hash256, AvailabilityState>,
)
    requires
        before.dom().finite(),
        before.len() <= MAX_AVAILABILITY_STATES,
        !(t is Failed),
        stores(before, root, t, r, after),
    ensures
        after.len() <= MAX_AVAILABILITY_STATES,
{
    match t {
        StateTransition::Completed(s) => match s {
            AvailabilityState::Available { .. } => {
                lemma_remove_len(before, root);
            },
            _ => {},
        },
        StateTransition::Ignored => {
            lemma_remove_len(before, root);
        },
        StateTransition::Rejected(_) => {
            lemma_remove_len(before, root);
        },
        _ => {},
    }
}

/// Removing a key from a finite map never makes it larger.
proof fn lemma_remove_len(m: Map<Hash256, AvailabilityState>, k: Hash256)
    requires
        m.dom().finite(),
    ensures
        m.remove(k).len() <= m.len(),
{
    if m.contains_key(k) {
        assert(m.remove(k).dom() =~= m.dom().remove(k));
    } else {
        assert(m.remove(k).dom() =~= m.dom());
    }
}

/// A block reported as missing components stays in the cache for import:
/// after an executed block is put and the answer is that components are
/// missing, the state of its root, unless eviction dropped it, holds that
/// block (what [`DataAvailabilityChecker::get_execution_valid_block`] reads).
pub proof fn missing_components_keep_the_block(
    before: Map<Hash256, AvailabilityState>,
    pending: AvailabilityPendingExecutedBlock,
    spec: ChainSpec,
    r: Result<Availability, AvailabilityCheckError>,
    after: Map<Hash256, AvailabilityState>,
)
    requires
        block_put(before, pending, spec, r, after),
        r matches Ok(Availability::MissingComponents(_)),
        after.contains_key(pending.import_data.block_root),
    ensures
        cached_block_of(after[pending.import_data.block_root]) == Some(pending.block@),
{
    let root = pending.import_data.block_root;
    let (p, b, t) = choose|p: AvailabilityState, b: AvailableExecutedBlock, t: StateTransition|
        #[trigger] component_target(before, root, p) && b@ == executed_view(pending, spec)
            && #[trigger] p.block_step(b, t) && stores(before, root, t, r, after);
    match t {
        StateTransition::Changed(s) => {
            assert(before.insert(root, s)[root] == s);
            assert(after[root] == s);
            assert(p is WaitingForBlock);
            assert(b@.block.block == b.block.block@);
            assert(cached_block_of(s) == Some(b.block.block@));
        },
        _ => {},
    }
}

/// Which blocks need a data availability check at slot `slot`: exactly those
/// of epochs from Deneb on that lie within the blob retention window, i.e.
/// no more than `min_epochs_for_blob_sidecars_requests` epochs before the
/// current one. So the current epoch always needs
/// a check once Deneb is active, epochs before Deneb never do, and nothing
/// does when the slot cannot be read or Deneb is not scheduled.
pub proof fn da_check_covers_recent_epochs(spec: ChainSpec, epoch: u64, slot: u64)
    ensures
        !da_required(spec, epoch, None),
        spec.deneb_fork_epoch is None ==> !da_required(spec, epoch, Some(slot)),
        spec.deneb_fork_epoch is Some ==> (da_required(spec, epoch, Some(slot)) <==> (epoch
            >= spec.deneb_fork_epoch->0 && epoch + spec.min_epochs_for_blob_sidecars_requests
            >= epoch_of(slot))),
        spec.deneb_fork_epoch is Some && epoch_of(slot) >= spec.deneb_fork_epoch->0 ==> da_required(
            spec,
            epoch_of(slot),
            Some(slot),
        ),
{
}

} // verus!
