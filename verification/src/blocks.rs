//! Blocks and data sidecars as the availability logic sees them: the values
//! it reads (roots, indices, commitments, slots) without the payload bytes.
use vstd::prelude::*;
use crate::primitives::{epoch_of, slot_epoch, ChainSpec, Hash256, KzgCommitment};

verus! {

/// A blob sidecar whose KZG proof has been verified.
#[derive(Clone, Copy, PartialEq, Eq, Structural, Debug)]
pub struct KzgVerifiedBlob {
    /// Root of the block the blob belongs to.
    pub block_root: Hash256,
    /// Position of the blob in the block's commitment list.
    pub index: u64,
    /// The blob's KZG commitment.
    pub kzg_commitment: KzgCommitment,
    /// Slot of the block the blob belongs to.
    pub slot: u64,
    /// When the blob was first seen (milliseconds since the UNIX epoch).
    pub seen_timestamp: u64,
}

/// A blob sidecar as delivered to import (the blob itself, after verification).
pub type BlobSidecar = KzgVerifiedBlob;

/// Names one blob: the root of its block and its index.
#[derive(Clone, Copy, PartialEq, Eq, Structural, Debug)]
pub struct BlobIdentifier {
    pub block_root: Hash256,
    pub index: u64,
}

impl KzgVerifiedBlob {
    pub fn blob_index(&self) -> (r: u64)
        ensures
            r == self.index,
    {
        self.index
    }

    pub fn block_root(&self) -> (r: Hash256)
        ensures
            r == self.block_root,
    {
        self.block_root
    }

    pub fn kzg_commitment(&self) -> (r: KzgCommitment)
        ensures
            r == self.kzg_commitment,
    {
        self.kzg_commitment
    }

    pub fn get_commitment(&self) -> (r: KzgCommitment)
        ensures
            r == self.kzg_commitment,
    {
        self.kzg_commitment
    }

    /// Epoch of the blob's slot.
    pub fn epoch(&self) -> (r: u64)
        ensures
            r == epoch_of(self.slot),
    {
        slot_epoch(self.slot)
    }

    pub fn seen_timestamp(&self) -> (r: u64)
        ensures
            r == self.seen_timestamp,
    {
        self.seen_timestamp
    }

    /// The sidecar carried by this verified blob.
    pub fn clone_blob(&self) -> (r: BlobSidecar)
        ensures
            r == *self,
    {
        *self
    }
}

/// A custody data column sidecar whose KZG proofs have been verified.
#[derive(Clone, Copy, PartialEq, Eq, Structural, Debug)]
pub struct KzgVerifiedCustodyDataColumn {
    /// Root of the block the column belongs to.
    pub block_root: Hash256,
    /// Column index.
    pub index: u64,
    /// Digest of the column's KZG commitments.
    pub kzg_commitment: KzgCommitment,
    /// Slot of the block the column belongs to.
    pub slot: u64,
}

/// A data column sidecar as delivered to import.
pub type DataColumnSidecar = KzgVerifiedCustodyDataColumn;

impl KzgVerifiedCustodyDataColumn {
    pub fn index(&self) -> (r: u64)
        ensures
            r == self.index,
    {
        self.index
    }

    pub fn block_root(&self) -> (r: Hash256)
        ensures
            r == self.block_root,
    {
        self.block_root
    }

    pub fn kzg_commitment(&self) -> (r: KzgCommitment)
        ensures
            r == self.kzg_commitment,
    {
        self.kzg_commitment
    }

    /// Epoch of the column's slot.
    pub fn epoch(&self) -> (r: u64)
        ensures
            r == epoch_of(self.slot),
    {
        slot_epoch(self.slot)
    }

    /// The sidecar carried by this verified column.
    pub fn clone_arc(&self) -> (r: DataColumnSidecar)
        ensures
            r == *self,
    {
        *self
    }
}

/// A signed beacon block, reduced to what availability checking reads.
#[derive(Debug)]
pub struct SignedBeaconBlock {
    pub slot: u64,
    /// The KZG commitments of the blobs the block commits to, in index order.
    pub blob_kzg_commitments: Vec<KzgCommitment>,
}

/// Mathematical value of a [`SignedBeaconBlock`].
pub struct BlockView {
    pub slot: u64,
    pub commitments: Seq<KzgCommitment>,
}

impl View for SignedBeaconBlock {
    type V = BlockView;

    open spec fn view(&self) -> BlockView {
        BlockView { slot: self.slot, commitments: self.blob_kzg_commitments@ }
    }
}

impl SignedBeaconBlock {
    /// Epoch of the block's slot.
    pub fn epoch(&self) -> (r: u64)
        ensures
            r == epoch_of(self.slot),
    {
        slot_epoch(self.slot)
    }

    /// Number of blobs the block commits to.
    pub fn num_expected_blobs(&self) -> (r: usize)
        ensures
            r == self.blob_kzg_commitments@.len(),
    {
        self.blob_kzg_commitments.len()
    }

    /// The commitment at `index`, if the block has one there.
    pub fn commitment_at(&self, index: usize) -> (r: Option<KzgCommitment>)
        ensures
            r == (if index < self.blob_kzg_commitments@.len() {
                Some(self.blob_kzg_commitments@[index as int])
            } else {
                None
            }),
    {
        if index < self.blob_kzg_commitments.len() {
            Some(self.blob_kzg_commitments[index])
        } else {
            None
        }
    }

    /// A copy of the block.
    pub fn clone_block(&self) -> (r: SignedBeaconBlock)
        ensures
            r@ == self@,
    {
        let c = self.blob_kzg_commitments.clone();
        proof {
            assert(c@ =~= self.blob_kzg_commitments@);
        }
        SignedBeaconBlock { slot: self.slot, blob_kzg_commitments: c }
    }
}

/// Outcome of execution-payload verification for a block.
#[derive(Clone, Copy, PartialEq, Eq, Structural, Debug)]
pub enum PayloadVerificationStatus {
    Verified,
    Optimistic,
    Irrelevant,
}

#[derive(Clone, Copy, PartialEq, Eq, Structural, Debug)]
pub struct PayloadVerificationOutcome {
    pub payload_verification_status: PayloadVerificationStatus,
    pub is_valid_merge_transition_block: bool,
}

/// Import metadata of an executed block.
#[derive(Clone, Copy, PartialEq, Eq, Structural, Debug)]
pub struct BlockImportData {
    pub block_root: Hash256,
}

/// An executed block waiting for its data, with its import data.
#[derive(Debug)]
pub struct AvailabilityPendingExecutedBlock {
    pub block: SignedBeaconBlock,
    pub import_data: BlockImportData,
    pub payload_verification_outcome: PayloadVerificationOutcome,
}

/// The cached form of an executed block waiting for its data.
#[derive(Debug)]
pub struct DietAvailabilityPendingExecutedBlock {
    pub block: SignedBeaconBlock,
    pub import_data: BlockImportData,
    pub payload_verification_outcome: PayloadVerificationOutcome,
}

/// Mathematical value of a pending executed block.
pub struct PendingBlockView {
    pub block: BlockView,
    pub import_data: BlockImportData,
    pub outcome: PayloadVerificationOutcome,
}

impl View for AvailabilityPendingExecutedBlock {
    type V = PendingBlockView;

    open spec fn view(&self) -> PendingBlockView {
        PendingBlockView {
            block: self.block@,
            import_data: self.import_data,
            outcome: self.payload_verification_outcome,
        }
    }
}

impl View for DietAvailabilityPendingExecutedBlock {
    type V = PendingBlockView;

    open spec fn view(&self) -> PendingBlockView {
        PendingBlockView {
            block: self.block@,
            import_data: self.import_data,
            outcome: self.payload_verification_outcome,
        }
    }
}

impl DietAvailabilityPendingExecutedBlock {
    pub fn as_block(&self) -> (r: &SignedBeaconBlock)
        ensures
            r@ == self.block@,
    {
        &self.block
    }

    /// Number of blobs the block commits to.
    pub fn num_blobs_expected(&self) -> (r: usize)
        ensures
            r == self.block.blob_kzg_commitments@.len(),
    {
        self.block.num_expected_blobs()
    }

    /// The block's blob commitments.
    pub fn get_commitments(&self) -> (r: &Vec<KzgCommitment>)
        ensures
            r@ == self.block.blob_kzg_commitments@,
    {
        &self.block.blob_kzg_commitments
    }

    /// Epoch of the block.
    pub fn epoch(&self) -> (r: u64)
        ensures
            r == epoch_of(self.block.slot),
    {
        self.block.epoch()
    }

    /// A copy of the cached block.
    pub fn clone_diet(&self) -> (r: DietAvailabilityPendingExecutedBlock)
        ensures
            r@ == self@,
    {
        DietAvailabilityPendingExecutedBlock {
            block: self.block.clone_block(),
            import_data: self.import_data,
            payload_verification_outcome: self.payload_verification_outcome,
        }
    }
}

/// The data that makes a block available.
#[derive(Debug)]
pub enum AvailableBlockData {
    /// Block is pre-Deneb or has zero blobs
    NoData,
    /// Block is post-Deneb, pre-PeerDAS and has more than zero blobs
    Blobs(Vec<BlobSidecar>),
    /// Block is post-PeerDAS and has more than zero blobs
    DataColumns(Vec<DataColumnSidecar>),
}

/// Mathematical value of [`AvailableBlockData`].
pub enum BlobDataView {
    NoData,
    Blobs(Seq<BlobSidecar>),
    DataColumns(Seq<DataColumnSidecar>),
}

impl View for AvailableBlockData {
    type V = BlobDataView;

    open spec fn view(&self) -> BlobDataView {
        match self {
            AvailableBlockData::NoData => BlobDataView::NoData,
            AvailableBlockData::Blobs(b) => BlobDataView::Blobs(b@),
            AvailableBlockData::DataColumns(c) => BlobDataView::DataColumns(c@),
        }
    }
}

impl AvailableBlockData {
    /// A copy of the data.
    pub fn clone_data(&self) -> (r: AvailableBlockData)
        ensures
            r@ == self@,
    {
        match self {
            AvailableBlockData::NoData => AvailableBlockData::NoData,
            AvailableBlockData::Blobs(b) => {
                let c = b.clone();
                assert(c@ =~= b@);
                AvailableBlockData::Blobs(c)
            },
            AvailableBlockData::DataColumns(d) => {
                let c = d.clone();
                assert(c@ =~= d@);
                AvailableBlockData::DataColumns(c)
            },
        }
    }
}

/// A fully available block that is ready to be imported into fork choice.
#[derive(Debug)]
pub struct AvailableBlock {
    pub block_root: Hash256,
    pub block: SignedBeaconBlock,
    pub blob_data: AvailableBlockData,
    /// Time (milliseconds since the UNIX epoch) at which the block first became
    /// available.
    pub blobs_available_timestamp: Option<u64>,
    pub spec: ChainSpec,
}

/// Mathematical value of an [`AvailableBlock`].
pub struct AvailableBlockView {
    pub block_root: Hash256,
    pub block: BlockView,
    pub data: BlobDataView,
    pub blobs_available_timestamp: Option<u64>,
    pub spec: ChainSpec,
}

impl View for AvailableBlock {
    type V = AvailableBlockView;

    open spec fn view(&self) -> AvailableBlockView {
        AvailableBlockView {
            block_root: self.block_root,
            block: self.block@,
            data: self.blob_data@,
            blobs_available_timestamp: self.blobs_available_timestamp,
            spec: self.spec,
        }
    }
}

impl AvailableBlock {
    pub fn __new_for_testing(
        block_root: Hash256,
        block: SignedBeaconBlock,
        data: AvailableBlockData,
        spec: ChainSpec,
    ) -> (r: AvailableBlock)
        ensures
            r@ == (AvailableBlockView {
                block_root,
                block: block@,
                data: data@,
                blobs_available_timestamp: None,
                spec,
            }),
    {
        AvailableBlock {
            block_root,
            block,
            blob_data: data,
            blobs_available_timestamp: None,
            spec,
        }
    }

    pub fn block(&self) -> (r: &SignedBeaconBlock)
        ensures
            r@ == self.block@,
    {
        &self.block
    }

    pub fn block_cloned(&self) -> (r: SignedBeaconBlock)
        ensures
            r@ == self.block@,
    {
        self.block.clone_block()
    }

    pub fn blobs_available_timestamp(&self) -> (r: Option<u64>)
        ensures
            r == self.blobs_available_timestamp,
    {
        self.blobs_available_timestamp
    }

    pub fn data(&self) -> (r: &AvailableBlockData)
        ensures
            r@ == self.blob_data@,
    {
        &self.blob_data
    }

    /// Whether the block's data is a list of blobs.
    pub fn has_blobs(&self) -> (r: bool)
        ensures
            r == (self.blob_data is Blobs),
    {
        match self.blob_data {
            AvailableBlockData::NoData => false,
            AvailableBlockData::Blobs(..) => true,
            AvailableBlockData::DataColumns(_) => false,
        }
    }

    /// Splits the block into its root, block and data.
    pub fn deconstruct(self) -> (r: (Hash256, SignedBeaconBlock, AvailableBlockData))
        ensures
            r.0 == self.block_root,
            r.1@ == self.block@,
            r.2@ == self.blob_data@,
    {
        let AvailableBlock { block_root, block, blob_data, .. } = self;
        (block_root, block, blob_data)
    }

    /// A copy of the block (only used for testing).
    pub fn __clone_without_recv(&self) -> (r: Result<AvailableBlock, String>)
        ensures
            r matches Ok(b) && b@ == self@,
    {
        Ok(AvailableBlock {
            block_root: self.block_root,
            block: self.block.clone_block(),
            blob_data: self.blob_data.clone_data(),
            blobs_available_timestamp: self.blobs_available_timestamp,
            spec: self.spec,
        })
    }
}

/// A block received by RPC, with the blobs or custody columns sent along
/// with it.
#[derive(Debug)]
pub struct RpcBlock {
    pub block_root: Hash256,
    pub block: SignedBeaconBlock,
    pub blobs: Option<Vec<BlobSidecar>>,
    pub custody_columns: Option<Vec<DataColumnSidecar>>,
}

impl RpcBlock {
    /// The block.
    pub fn as_block(&self) -> (r: &SignedBeaconBlock)
        ensures
            r@ == self.block@,
    {
        &self.block
    }

    /// The blobs sent along, if any.
    pub fn blobs(&self) -> (r: Option<&Vec<BlobSidecar>>)
        ensures
            r == (match &self.blobs {
                Some(v) => Some(v),
                None => None::<&Vec<BlobSidecar>>,
            }),
    {
        self.blobs.as_ref()
    }

    /// The custody columns sent along, if any.
    pub fn custody_columns(&self) -> (r: Option<&Vec<DataColumnSidecar>>)
        ensures
            r == (match &self.custody_columns {
                Some(v) => Some(v),
                None => None::<&Vec<DataColumnSidecar>>,
            }),
    {
        self.custody_columns.as_ref()
    }

    /// Splits the block into its root, block, blobs and columns.
    pub fn deconstruct(self) -> (r: (
        Hash256,
        SignedBeaconBlock,
        Option<Vec<BlobSidecar>>,
        Option<Vec<DataColumnSidecar>>,
    ))
        ensures
            r == (self.block_root, self.block, self.blobs, self.custody_columns),
    {
        (self.block_root, self.block, self.blobs, self.custody_columns)
    }
}

/// A block whose data may or may not be available yet.
#[derive(Debug)]
pub enum MaybeAvailableBlock {
    /// This variant is fully available.
    Available(AvailableBlock),
    /// This variant is not fully available and requires blobs to become fully available.
    AvailabilityPending { block_root: Hash256, block: SignedBeaconBlock },
}

impl MaybeAvailableBlock {
    pub fn block_cloned(&self) -> (r: SignedBeaconBlock)
        ensures
            r@ == (match self {
                MaybeAvailableBlock::Available(b) => b.block@,
                MaybeAvailableBlock::AvailabilityPending { block, .. } => block@,
            }),
    {
        match self {
            MaybeAvailableBlock::Available(block) => block.block_cloned(),
            MaybeAvailableBlock::AvailabilityPending { block, .. } => block.clone_block(),
        }
    }
}

/// A block that has been executed and whose data is available.
#[derive(Debug)]
pub struct AvailableExecutedBlock {
    pub block: AvailableBlock,
    pub import_data: BlockImportData,
    pub payload_verification_outcome: PayloadVerificationOutcome,
}

/// Mathematical value of an [`AvailableExecutedBlock`].
pub struct AvailableExecutedBlockView {
    pub block: AvailableBlockView,
    pub import_data: BlockImportData,
    pub outcome: PayloadVerificationOutcome,
}

impl View for AvailableExecutedBlock {
    type V = AvailableExecutedBlockView;

    open spec fn view(&self) -> AvailableExecutedBlockView {
        AvailableExecutedBlockView {
            block: self.block@,
            import_data: self.import_data,
            outcome: self.payload_verification_outcome,
        }
    }
}

impl AvailableExecutedBlock {
    pub fn new(
        block: AvailableBlock,
        import_data: BlockImportData,
        payload_verification_outcome: PayloadVerificationOutcome,
    ) -> (r: AvailableExecutedBlock)
        ensures
            r@ == (AvailableExecutedBlockView {
                block: block@,
                import_data,
                outcome: payload_verification_outcome,
            }),
    {
        AvailableExecutedBlock { block, import_data, payload_verification_outcome }
    }

    /// Epoch of the block.
    pub fn epoch(&self) -> (r: u64)
        ensures
            r == epoch_of(self.block.block.slot),
    {
        self.block.block.epoch()
    }
}

} // verus!
