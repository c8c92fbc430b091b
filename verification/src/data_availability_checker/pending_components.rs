//! The components gathered for one block, by fork: blobs before PeerDAS,
//! data columns after it.
use vstd::prelude::*;
use crate::blocks::{
    AvailabilityPendingExecutedBlock, AvailableBlock, AvailableBlockData, AvailableExecutedBlock,
    BlobDataView, DietAvailabilityPendingExecutedBlock, KzgVerifiedBlob,
    KzgVerifiedCustodyDataColumn, PendingBlockView,
};
use crate::primitives::{epoch_of, ChainSpec, Hash256, KzgCommitment};
use crate::text::{decimal, push_decimal};
use super::error::AvailabilityCheckError;

verus! {

/// Components gathered for a block, by fork.
#[derive(Debug)]
pub enum PendingComponents {
    /// Post-Deneb, Pre-PeerDAS: Only blob sidecars needed, one slot per index
    PostDeneb {
        block_root: Hash256,
        executed_block: Option<DietAvailabilityPendingExecutedBlock>,
        verified_blobs: Vec<Option<KzgVerifiedBlob>>,
    },
    /// Post-PeerDAS: Only data columns needed
    PostPeerDAS {
        block_root: Hash256,
        executed_block: Option<DietAvailabilityPendingExecutedBlock>,
        verified_data_columns: Vec<KzgVerifiedCustodyDataColumn>,
        /// Set while reconstruction runs, to prevent a second one
        reconstruction_started: bool,
    },
}

/// What a block is ready to be made available with.
pub enum Readiness {
    /// Block or data still missing.
    NotReady,
    /// More blobs held than a block may carry.
    TooManyBlobs,
    /// Ready, with this data.
    Ready(BlobDataView),
}

/// Merges `blob` into slot `index`. With the block known (its commitments
/// `commitments`), the blob replaces the slot only if its commitment is the
/// block's commitment at that index; without the block, it fills the slot
/// only if the slot is empty.
pub open spec fn merge_one(
    commitments: Option<Seq<KzgCommitment>>,
    slots: Seq<Option<KzgVerifiedBlob>>,
    index: int,
    blob: KzgVerifiedBlob,
) -> Seq<Option<KzgVerifiedBlob>> {
    match commitments {
        Some(c) => if 0 <= index < c.len() && c[index] == blob.kzg_commitment && index
            < slots.len() {
            slots.update(index, Some(blob))
        } else {
            slots
        },
        None => if 0 <= index < slots.len() && slots[index] is None {
            slots.update(index, Some(blob))
        } else {
            slots
        },
    }
}

/// Merges the first `n` entries of `blobs` (entry `i` at index `i`) into
/// `slots`, one after another.
pub open spec fn merge_prefix(
    commitments: Option<Seq<KzgCommitment>>,
    slots: Seq<Option<KzgVerifiedBlob>>,
    blobs: Seq<Option<KzgVerifiedBlob>>,
    n: nat,
) -> Seq<Option<KzgVerifiedBlob>>
    decreases n,
{
    if n == 0 {
        slots
    } else {
        let prev = merge_prefix(commitments, slots, blobs, (n - 1) as nat);
        match blobs[n - 1] {
            Some(b) => merge_one(commitments, prev, n - 1, b),
            None => prev,
        }
    }
}

/// Every cached blob carries the block's commitment at its index.
pub open spec fn blobs_consistent(
    commitments: Seq<KzgCommitment>,
    slots: Seq<Option<KzgVerifiedBlob>>,
) -> bool {
    forall|i: int|
        0 <= i < slots.len() && #[trigger] slots[i] is Some ==> i < commitments.len()
            && commitments[i] == slots[i]->0.kzg_commitment
}

/// The blobs held in `slots`, in index order.
pub open spec fn held_blobs(slots: Seq<Option<KzgVerifiedBlob>>) -> Seq<KzgVerifiedBlob>
    decreases slots.len(),
{
    if slots.len() == 0 {
        Seq::empty()
    } else {
        let prev = held_blobs(slots.drop_last());
        match slots.last() {
            Some(b) => prev.push(b),
            None => prev,
        }
    }
}

/// The latest time a held blob was seen, if any blob is held.
pub open spec fn latest_seen(slots: Seq<Option<KzgVerifiedBlob>>) -> Option<u64>
    decreases slots.len(),
{
    if slots.len() == 0 {
        None
    } else {
        let prev = latest_seen(slots.drop_last());
        match slots.last() {
            Some(b) => match prev {
                Some(t) => Some(if t >= b.seen_timestamp { t } else { b.seen_timestamp }),
                None => Some(b.seen_timestamp),
            },
            None => prev,
        }
    }
}

/// Appends each of `new` whose index is not already present, in order.
pub open spec fn merge_columns_seq(
    existing: Seq<KzgVerifiedCustodyDataColumn>,
    new: Seq<KzgVerifiedCustodyDataColumn>,
) -> Seq<KzgVerifiedCustodyDataColumn>
    decreases new.len(),
{
    if new.len() == 0 {
        existing
    } else {
        let prev = merge_columns_seq(existing, new.drop_last());
        if exists|j: int| 0 <= j < prev.len() && prev[j].index == new.last().index {
            prev
        } else {
            prev.push(new.last())
        }
    }
}

/// The view of an optional cached block.
pub open spec fn opt_block_view(b: Option<DietAvailabilityPendingExecutedBlock>) -> Option<
    PendingBlockView,
> {
    match b {
        Some(x) => Some(x@),
        None => None,
    }
}

impl PendingComponents {
    pub open spec fn spec_block_root(&self) -> Hash256 {
        match self {
            PendingComponents::PostDeneb { block_root, .. } => *block_root,
            PendingComponents::PostPeerDAS { block_root, .. } => *block_root,
        }
    }

    pub open spec fn spec_block(&self) -> Option<PendingBlockView> {
        match self {
            PendingComponents::PostDeneb { executed_block, .. } => opt_block_view(*executed_block),
            PendingComponents::PostPeerDAS { executed_block, .. } => opt_block_view(
                *executed_block,
            ),
        }
    }

    /// The commitments of the cached block, if one is cached.
    pub open spec fn spec_commitments(&self) -> Option<Seq<KzgCommitment>> {
        match self.spec_block() {
            Some(b) => Some(b.block.commitments),
            None => None,
        }
    }

    /// With a block cached, every cached blob matches the block's commitment
    /// at its index.
    pub open spec fn consistent(&self) -> bool {
        match self {
            PendingComponents::PostDeneb { verified_blobs, .. } => match self.spec_commitments() {
                Some(c) => blobs_consistent(c, verified_blobs@),
                None => true,
            },
            PendingComponents::PostPeerDAS { .. } => true,
        }
    }

    /// Fresh components for `epoch`: columns if PeerDAS is active, else one
    /// empty slot per blob a block may carry.
    pub fn empty_for_epoch(block_root: Hash256, epoch: u64, spec: &ChainSpec) -> (p:
        PendingComponents)
        ensures
            spec.spec_peer_das_enabled(epoch) ==> (p matches PendingComponents::PostPeerDAS {
                block_root: r,
                executed_block: None,
                verified_data_columns,
                reconstruction_started: false,
            } && r == block_root && verified_data_columns@.len() == 0),
            !spec.spec_peer_das_enabled(epoch) ==> (p matches PendingComponents::PostDeneb {
                block_root: r,
                executed_block: None,
                verified_blobs,
            } && r == block_root && verified_blobs@ == Seq::new(
                spec.max_blobs_per_block as nat,
                |i: int| None::<KzgVerifiedBlob>,
            )),
    {
        if spec.is_peer_das_enabled_for_epoch(epoch) {
            PendingComponents::PostPeerDAS {
                block_root,
                executed_block: None,
                verified_data_columns: Vec::new(),
                reconstruction_started: false,
            }
        } else {
            let max = spec.max_blobs_per_block(epoch);
            Self::empty_blobs(block_root, max)
        }
    }

    fn empty_blobs(block_root: Hash256, max_len: u64) -> (p: PendingComponents)
        ensures
            p matches PendingComponents::PostDeneb {
                block_root: r,
                executed_block: None,
                verified_blobs,
            } && r == block_root && verified_blobs@ == Seq::new(
                max_len as nat,
                |i: int| None::<KzgVerifiedBlob>,
            ),
    {
        let mut slots: Vec<Option<KzgVerifiedBlob>> = Vec::new();
        let mut i: u64 = 0;
        while i < max_len
            invariant
                i <= max_len,
                slots@ == Seq::new(i as nat, |j: int| None::<KzgVerifiedBlob>),
            decreases max_len - i,
        {
            slots.push(None);
            i = i + 1;
            proof {
                assert(slots@ =~= Seq::new(i as nat, |j: int| None::<KzgVerifiedBlob>));
            }
        }
        PendingComponents::PostDeneb { block_root, executed_block: None, verified_blobs: slots }
    }

    /// Fresh blob components with `max_len` empty slots.
    pub fn empty(block_root: Hash256, max_len: usize) -> (p: PendingComponents)
        ensures
            p matches PendingComponents::PostDeneb {
                block_root: r,
                executed_block: None,
                verified_blobs,
            } && r == block_root && verified_blobs@ == Seq::new(
                max_len as nat,
                |i: int| None::<KzgVerifiedBlob>,
            ),
    {
        Self::empty_blobs(block_root, max_len as u64)
    }

    pub fn get_cached_block(&self) -> (r: &Option<DietAvailabilityPendingExecutedBlock>)
        ensures
            opt_block_view(*r) == self.spec_block(),
    {
        match self {
            PendingComponents::PostDeneb { executed_block, .. } => executed_block,
            PendingComponents::PostPeerDAS { executed_block, .. } => executed_block,
        }
    }

    /// The blob slots (none for the column variant).
    pub fn get_cached_blobs(&self) -> (r: Vec<Option<KzgVerifiedBlob>>)
        ensures
            r@ == (match self {
                PendingComponents::PostDeneb { verified_blobs, .. } => verified_blobs@,
                PendingComponents::PostPeerDAS { .. } => Seq::empty(),
            }),
    {
        match self {
            PendingComponents::PostDeneb { verified_blobs, .. } => {
                let c = verified_blobs.clone();
                proof {
                    assert(c@ =~= verified_blobs@);
                }
                c
            },
            PendingComponents::PostPeerDAS { .. } => Vec::new(),
        }
    }

    /// Indices of the cached columns, in cache order (none for the blob variant).
    pub fn get_cached_data_columns_indices(&self) -> (r: Vec<u64>)
        ensures
            r@ == (match self {
                PendingComponents::PostPeerDAS { verified_data_columns, .. } => Seq::new(
                    verified_data_columns@.len(),
                    |i: int| verified_data_columns@[i].index,
                ),
                PendingComponents::PostDeneb { .. } => Seq::empty(),
            }),
    {
        match self {
            PendingComponents::PostPeerDAS { verified_data_columns, .. } => {
                let mut out: Vec<u64> = Vec::new();
                let mut i: usize = 0;
                while i < verified_data_columns.len()
                    invariant
                        i <= verified_data_columns@.len(),
                        out@ == Seq::new(i as nat, |j: int| verified_data_columns@[j].index),
                    decreases verified_data_columns@.len() - i,
                {
                    out.push(verified_data_columns[i].index());
                    i = i + 1;
                    proof {
                        assert(out@ =~= Seq::new(
                            i as nat,
                            |j: int| verified_data_columns@[j].index,
                        ));
                    }
                }
                out
            },
            PendingComponents::PostDeneb { .. } => Vec::new(),
        }
    }

    /// The first cached column with index `data_column_index`, if any.
    #[verifier::loop_isolation(false)]
    pub fn get_cached_data_column(&self, data_column_index: u64) -> (r: Option<
        KzgVerifiedCustodyDataColumn,
    >)
        ensures
            match self {
                PendingComponents::PostPeerDAS { verified_data_columns, .. } => {
                    let s = verified_data_columns@;
                    match r {
                        Some(c) => exists|j: int|
                            0 <= j < s.len() && s[j] == c && c.index == data_column_index && (
                            forall|k: int| 0 <= k < j ==> s[k].index != data_column_index),
                        None => forall|j: int|
                            0 <= j < s.len() ==> s[j].index != data_column_index,
                    }
                },
                PendingComponents::PostDeneb { .. } => r is None,
            },
    {
        match self {
            PendingComponents::PostPeerDAS { verified_data_columns, .. } => {
                let mut i: usize = 0;
                while i < verified_data_columns.len()
                    invariant
                        i <= verified_data_columns@.len(),
                        forall|k: int|
                            0 <= k < i ==> verified_data_columns@[k].index != data_column_index,
                    decreases verified_data_columns@.len() - i,
                {
                    if verified_data_columns[i].index() == data_column_index {
                        let c = verified_data_columns[i].clone_arc();
                        proof {
                            assert(verified_data_columns@[i as int] == c);
                        }
                        return Some(c);
                    }
                    i = i + 1;
                }
                None
            },
            PendingComponents::PostDeneb { .. } => None,
        }
    }

    /// Caches the executed block, replacing any cached before.
    pub fn insert_block(&mut self, block: DietAvailabilityPendingExecutedBlock)
        ensures
            final(self).spec_block() == Some(block@),
            final(self).spec_block_root() == old(self).spec_block_root(),
            match (*old(self), *final(self)) {
                (
                    PendingComponents::PostDeneb { verified_blobs: a, .. },
                    PendingComponents::PostDeneb { verified_blobs: b, .. },
                ) => a@ == b@,
                (
                    PendingComponents::PostPeerDAS {
                        verified_data_columns: a,
                        reconstruction_started: ra,
                        ..
                    },
                    PendingComponents::PostPeerDAS {
                        verified_data_columns: b,
                        reconstruction_started: rb,
                        ..
                    },
                ) => a@ == b@ && ra == rb,
                _ => false,
            },
    {
        match self {
            PendingComponents::PostDeneb { executed_block, .. } => *executed_block = Some(block),
            PendingComponents::PostPeerDAS { executed_block, .. } => *executed_block = Some(block),
        }
    }

    /// Merges the blob slots `blobs` (entry `i` for index `i`), one after
    /// another, by [`merge_one`]; the column variant ignores blobs.
    pub fn merge_blobs(&mut self, blobs: Vec<Option<KzgVerifiedBlob>>)
        ensures
            final(self).spec_block() == old(self).spec_block(),
            final(self).spec_block_root() == old(self).spec_block_root(),
            match *old(self) {
                PendingComponents::PostDeneb { verified_blobs: a, .. } => *final(self) matches PendingComponents::PostDeneb { verified_blobs: b, .. } && b@
                    == merge_prefix(old(self).spec_commitments(), a@, blobs@, blobs@.len()),
                PendingComponents::PostPeerDAS { .. } => *final(self) == *old(self),
            },
            old(self).consistent() ==> final(self).consistent(),
    {
        if let PendingComponents::PostDeneb { .. } = self {
            let mut i: usize = 0;
            while i < blobs.len()
                invariant
                    i <= blobs@.len(),
                    self.spec_block() == old(self).spec_block(),
                    self.spec_block_root() == old(self).spec_block_root(),
                    *old(self) is PostDeneb,
                    *self matches PendingComponents::PostDeneb { verified_blobs: b, .. } && b@
                        == merge_prefix(
                        old(self).spec_commitments(),
                        (*old(self))->verified_blobs@,
                        blobs@,
                        i as nat,
                    ),
                    old(self).consistent() ==> self.consistent(),
                decreases blobs@.len() - i,
            {
                if let Some(blob) = blobs[i] {
                    self.merge_single_blob(i, blob);
                }
                i = i + 1;
            }
        }
    }

    /// Merges one blob into slot `index` by [`merge_one`]; the column variant
    /// ignores blobs.
    pub fn merge_single_blob(&mut self, index: usize, blob: KzgVerifiedBlob)
        ensures
            final(self).spec_block() == old(self).spec_block(),
            final(self).spec_block_root() == old(self).spec_block_root(),
            match *old(self) {
                PendingComponents::PostDeneb { verified_blobs: a, .. } => *final(self) matches PendingComponents::PostDeneb { verified_blobs: b, .. } && b@
                    == merge_one(old(self).spec_commitments(), a@, index as int, blob),
                PendingComponents::PostPeerDAS { .. } => *final(self) == *old(self),
            },
            old(self).consistent() ==> final(self).consistent(),
    {
        match self {
            PendingComponents::PostDeneb { verified_blobs, executed_block, .. } => {
                if let Some(cached_block) = executed_block {
                    let block_commitment_opt = cached_block.block.commitment_at(index);
                    if let Some(block_commitment) = block_commitment_opt {
                        if block_commitment == blob.kzg_commitment && index < verified_blobs.len() {
                            verified_blobs.set(index, Some(blob));
                        }
                    }
                } else if index < verified_blobs.len() {
                    if verified_blobs[index].is_none() {
                        verified_blobs.set(index, Some(blob));
                    }
                }
            },
            PendingComponents::PostPeerDAS { .. } => {},
        }
    }

    /// Appends each column whose index is not cached yet, in order; the blob
    /// variant ignores columns. Never fails.
    pub fn merge_data_columns(&mut self, kzg_verified_data_columns: Vec<KzgVerifiedCustodyDataColumn>) -> (r:
        Result<(), AvailabilityCheckError>)
        ensures
            r is Ok,
            final(self).spec_block() == old(self).spec_block(),
            final(self).spec_block_root() == old(self).spec_block_root(),
            match *old(self) {
                PendingComponents::PostPeerDAS {
                    verified_data_columns: a,
                    reconstruction_started: ra,
                    ..
                } => *final(self) matches PendingComponents::PostPeerDAS {
                    verified_data_columns: b,
                    reconstruction_started: rb,
                    ..
                } && b@ == merge_columns_seq(a@, kzg_verified_data_columns@) && rb == ra,
                PendingComponents::PostDeneb { .. } => *final(self) == *old(self),
            },
    {
        match self {
            PendingComponents::PostPeerDAS { verified_data_columns, .. } => {
                let ghost a = verified_data_columns@;
                let mut i: usize = 0;
                while i < kzg_verified_data_columns.len()
                    invariant
                        i <= kzg_verified_data_columns@.len(),
                        verified_data_columns@ == merge_columns_seq(
                            a,
                            kzg_verified_data_columns@.take(i as int),
                        ),
                    decreases kzg_verified_data_columns@.len() - i,
                {
                    let column = kzg_verified_data_columns[i];
                    proof {
                        assert(kzg_verified_data_columns@.take(i as int + 1).drop_last()
                            =~= kzg_verified_data_columns@.take(i as int));
                    }
                    if !has_column_index(verified_data_columns, column.index()) {
                        verified_data_columns.push(column);
                    }
                    i = i + 1;
                }
                proof {
                    assert(kzg_verified_data_columns@.take(i as int) =~= kzg_verified_data_columns@);
                }
                Ok(())
            },
            PendingComponents::PostDeneb { .. } => Ok(()),
        }
    }

    /// Caches the block, then re-merges the cached blobs against it: blobs
    /// whose commitment differs from the block's are dropped.
    pub fn merge_block(&mut self, block: DietAvailabilityPendingExecutedBlock)
        ensures
            final(self).spec_block() == Some(block@),
            final(self).spec_block_root() == old(self).spec_block_root(),
            final(self).consistent(),
            match *old(self) {
                PendingComponents::PostDeneb { verified_blobs: a, .. } => *final(self) matches PendingComponents::PostDeneb { verified_blobs: b, .. } && b@
                    == merge_prefix(
                    Some(block@.block.commitments),
                    Seq::new(a@.len(), |i: int| None::<KzgVerifiedBlob>),
                    a@,
                    a@.len(),
                ),
                PendingComponents::PostPeerDAS {
                    verified_data_columns: a,
                    reconstruction_started: ra,
                    ..
                } => *final(self) matches PendingComponents::PostPeerDAS {
                    verified_data_columns: b,
                    reconstruction_started: rb,
                    ..
                } && a@ == b@ && ra == rb,
            },
    {
        self.insert_block(block);
        let reinsert = self.get_cached_blobs();
        if let PendingComponents::PostDeneb { verified_blobs, .. } = self {
            let len = verified_blobs.len();
            let mut cleared: Vec<Option<KzgVerifiedBlob>> = Vec::new();
            let mut i: usize = 0;
            while i < len
                invariant
                    i <= len,
                    cleared@ == Seq::new(i as nat, |j: int| None::<KzgVerifiedBlob>),
                decreases len - i,
            {
                cleared.push(None);
                i = i + 1;
                proof {
                    assert(cleared@ =~= Seq::new(i as nat, |j: int| None::<KzgVerifiedBlob>));
                }
            }
            *verified_blobs = cleared;
        }
        proof {
            if let PendingComponents::PostDeneb { verified_blobs, .. } = self {
                assert forall|i: int|
                    0 <= i < verified_blobs@.len() && #[trigger] verified_blobs@[i] is Some implies false by {}
            }
        }
        self.merge_blobs(reinsert);
    }

    /// The epoch of the cached block, else of the first cached blob or
    /// column, else none.
    #[verifier::loop_isolation(false)]
    pub fn epoch(&self) -> (r: Option<u64>)
        ensures
            match self.spec_block() {
                Some(b) => r == Some(epoch_of(b.block.slot)),
                None => match self {
                    PendingComponents::PostDeneb { verified_blobs, .. } => {
                        let s = verified_blobs@;
                        match r {
                            Some(e) => exists|j: int|
                                #![trigger s[j]]
                                0 <= j < s.len() && (s[j] matches Some(b) && e == epoch_of(b.slot))
                                    && (forall|k: int| 0 <= k < j ==> s[k] is None),
                            None => forall|j: int| 0 <= j < s.len() ==> s[j] is None,
                        }
                    },
                    PendingComponents::PostPeerDAS { verified_data_columns, .. } => {
                        let s = verified_data_columns@;
                        r == (if s.len() > 0 {
                            Some(epoch_of(s[0].slot))
                        } else {
                            None
                        })
                    },
                },
            },
    {
        match self {
            PendingComponents::PostDeneb { executed_block, verified_blobs, .. } => {
                if let Some(executed_block) = executed_block {
                    Some(executed_block.as_block().epoch())
                } else {
                    let mut i: usize = 0;
                    while i < verified_blobs.len()
                        invariant
                            i <= verified_blobs@.len(),
                            forall|k: int| 0 <= k < i ==> verified_blobs@[k] is None,
                        decreases verified_blobs@.len() - i,
                    {
                        if let Some(blob) = verified_blobs[i] {
                            proof {
                                assert(verified_blobs@[i as int] == Some(blob));
                            }
                            return Some(blob.epoch());
                        }
                        i = i + 1;
                    }
                    None
                }
            },
            PendingComponents::PostPeerDAS { executed_block, verified_data_columns, .. } => {
                if let Some(executed_block) = executed_block {
                    Some(executed_block.as_block().epoch())
                } else if verified_data_columns.len() > 0 {
                    Some(verified_data_columns[0].epoch())
                } else {
                    None
                }
            },
        }
    }

    /// A one-line summary: whether the block is cached, and how many blobs or
    /// columns are held out of how many are expected (`?` when unknown).
    pub fn status_str(&self, num_expected_columns_opt: Option<usize>) -> (s: String)
        ensures
            s@ == (match self {
                PendingComponents::PostDeneb { executed_block, verified_blobs, .. } => "block "@
                    + decimal(if executed_block is Some { 1 } else { 0 }) + " blobs "@ + decimal(
                    held_blobs(verified_blobs@).len(),
                ) + "/"@ + match executed_block {
                    Some(b) => decimal(b.block.blob_kzg_commitments@.len()),
                    None => "?"@,
                },
                PendingComponents::PostPeerDAS { executed_block, verified_data_columns, .. } =>
                "block "@ + decimal(if executed_block is Some { 1 } else { 0 })
                    + " data_columns "@ + decimal(verified_data_columns@.len())
                    + "/"@ + match num_expected_columns_opt {
                    Some(c) => decimal(c as nat),
                    None => "?"@,
                },
            }),
    {
        match self {
            PendingComponents::PostDeneb { executed_block, verified_blobs, .. } => {
                let block_count: u64 = if executed_block.is_some() { 1 } else { 0 };
                let held = count_held(verified_blobs);
                let mut s = String::from_str("block ");
                push_decimal(&mut s, block_count);
                s.append(" blobs ");
                push_decimal(&mut s, held as u64);
                s.append("/");
                match executed_block {
                    Some(block) => push_decimal(&mut s, block.num_blobs_expected() as u64),
                    None => s.append("?"),
                }
                s
            },
            PendingComponents::PostPeerDAS { executed_block, verified_data_columns, .. } => {
                let block_count: u64 = if executed_block.is_some() { 1 } else { 0 };
                let mut s = String::from_str("block ");
                push_decimal(&mut s, block_count);
                s.append(" data_columns ");
                push_decimal(&mut s, verified_data_columns.len() as u64);
                s.append("/");
                match num_expected_columns_opt {
                    Some(c) => push_decimal(&mut s, c as u64),
                    None => s.append("?"),
                }
                s
            },
        }
    }

    /// Whether reconstruction has started (always false for blobs).
    pub fn reconstruction_started(&self) -> (r: bool)
        ensures
            r == (*self matches PendingComponents::PostPeerDAS { reconstruction_started, .. }
                && reconstruction_started),
    {
        match self {
            PendingComponents::PostPeerDAS { reconstruction_started, .. } => *reconstruction_started,
            PendingComponents::PostDeneb { .. } => false,
        }
    }

    /// Sets the reconstruction flag (no effect for blobs).
    pub fn set_reconstruction_started(&mut self, started: bool)
        ensures
            match *old(self) {
                PendingComponents::PostPeerDAS {
                    block_root,
                    executed_block,
                    verified_data_columns,
                    ..
                } => *final(self) == PendingComponents::PostPeerDAS {
                    block_root,
                    executed_block,
                    verified_data_columns,
                    reconstruction_started: started,
                },
                PendingComponents::PostDeneb { .. } => *final(self) == *old(self),
            },
    {
        match self {
            PendingComponents::PostPeerDAS { reconstruction_started, .. } => {
                *reconstruction_started = started
            },
            PendingComponents::PostDeneb { .. } => {},
        }
    }

    /// A copy of the cached columns (none for blobs).
    pub fn get_verified_data_columns(&self) -> (r: Vec<KzgVerifiedCustodyDataColumn>)
        ensures
            r@ == (match self {
                PendingComponents::PostPeerDAS { verified_data_columns, .. } => verified_data_columns@,
                PendingComponents::PostDeneb { .. } => Seq::empty(),
            }),
    {
        match self {
            PendingComponents::PostPeerDAS { verified_data_columns, .. } => {
                let c = verified_data_columns.clone();
                proof {
                    assert(c@ =~= verified_data_columns@);
                }
                c
            },
            PendingComponents::PostDeneb { .. } => Vec::new(),
        }
    }

    /// Drops all cached columns and clears the reconstruction flag (no effect
    /// for blobs).
    pub fn clear_data_columns_and_reset_reconstruction(&mut self)
        ensures
            final(self).spec_block() == old(self).spec_block(),
            final(self).spec_block_root() == old(self).spec_block_root(),
            match *old(self) {
                PendingComponents::PostPeerDAS { .. } => *final(self) matches PendingComponents::PostPeerDAS {
                    verified_data_columns,
                    reconstruction_started: false,
                    ..
                } && verified_data_columns@.len() == 0,
                PendingComponents::PostDeneb { .. } => *final(self) == *old(self),
            },
    {
        match self {
            PendingComponents::PostPeerDAS {
                verified_data_columns,
                reconstruction_started,
                ..
            } => {
                verified_data_columns.clear();
                *reconstruction_started = false;
            },
            PendingComponents::PostDeneb { .. } => {},
        }
    }

    /// What the block is ready to be made available with, given at most
    /// `max_blobs` blobs per block and the expected column count.
    pub open spec fn readiness(&self, max_blobs: int, num_expected_columns_opt: Option<usize>) -> Readiness {
        match self {
            PendingComponents::PostDeneb { executed_block: Some(block), verified_blobs, .. } => {
                let n = block.block.blob_kzg_commitments@.len();
                let held = held_blobs(verified_blobs@);
                if n == 0 {
                    Readiness::Ready(BlobDataView::NoData)
                } else if held.len() >= n {
                    if held.len() > max_blobs {
                        Readiness::TooManyBlobs
                    } else {
                        Readiness::Ready(BlobDataView::Blobs(held))
                    }
                } else {
                    Readiness::NotReady
                }
            },
            PendingComponents::PostPeerDAS {
                executed_block: Some(block),
                verified_data_columns,
                ..
            } => {
                let n = block.block.blob_kzg_commitments@.len();
                if n == 0 {
                    Readiness::Ready(BlobDataView::NoData)
                } else {
                    match num_expected_columns_opt {
                        Some(k) => if verified_data_columns@.len() >= k {
                            Readiness::Ready(BlobDataView::DataColumns(verified_data_columns@))
                        } else {
                            Readiness::NotReady
                        },
                        None => Readiness::NotReady,
                    }
                }
            },
            _ => Readiness::NotReady,
        }
    }

    /// The cached block's epoch (what the blob limit is looked up at).
    pub open spec fn block_epoch(&self) -> u64 {
        match self.spec_block() {
            Some(b) => epoch_of(b.block.slot),
            None => 0,
        }
    }

    /// Makes the block available if it and all its data are present: no data
    /// if it has no blobs; before PeerDAS, its blobs once at least as many are
    /// held as it commits to; after PeerDAS, its columns once at least the
    /// expected number is held. The cached block is first passed to `recover`
    /// to restore its full form, and the available block takes its block,
    /// import data and payload outcome from what `recover` returned; an error
    /// from `recover` is returned as it is.
    pub fn make_available<R>(
        &self,
        spec: &ChainSpec,
        num_expected_columns_opt: Option<usize>,
        recover: R,
    ) -> (r: Result<Option<AvailableExecutedBlock>, AvailabilityCheckError>) where
        R: FnOnce(DietAvailabilityPendingExecutedBlock) -> Result<
            AvailabilityPendingExecutedBlock,
            AvailabilityCheckError,
        >,

        requires
            forall|d: DietAvailabilityPendingExecutedBlock| recover.requires((d,)),
        ensures
            match self.readiness(spec.max_blobs_per_block as int, num_expected_columns_opt) {
                Readiness::NotReady => r matches Ok(None),
                Readiness::TooManyBlobs => r matches Err(AvailabilityCheckError::Unexpected(m))
                    && m@ == "blob count exceeded max"@,
                Readiness::Ready(data) => match r {
                    Ok(Some(b)) => {
                        &&& b.block.blob_data@ == data
                        &&& b.block.block_root == self.spec_block_root()
                        &&& b.block.spec == *spec
                        &&& b.block.blobs_available_timestamp == (match (data, self) {
                            (BlobDataView::Blobs(_), PendingComponents::PostDeneb { verified_blobs, .. }) => latest_seen(
                                verified_blobs@,
                            ),
                            _ => None,
                        })
                        &&& exists|d: DietAvailabilityPendingExecutedBlock, x: AvailabilityPendingExecutedBlock|
                            Some(d@) == self.spec_block() && #[trigger] recover.ensures((d,), Ok(x))
                                && b.block.block@ == x.block@ && b.import_data == x.import_data
                                && b.payload_verification_outcome == x.payload_verification_outcome
                    },
                    Ok(None) => false,
                    Err(e) => exists|d: DietAvailabilityPendingExecutedBlock|
                        Some(d@) == self.spec_block() && #[trigger] recover.ensures((d,), Err(e)),
                },
            },
    {
        match self {
            PendingComponents::PostDeneb { executed_block: Some(block), verified_blobs, .. } => {
                let num_expected_blobs = block.num_blobs_expected();
                if num_expected_blobs == 0 {
                    let recovered = recover(block.clone_diet())?;
                    self.create_available_block(recovered, AvailableBlockData::NoData, spec)
                } else {
                    let blobs_vec = held_list(verified_blobs);
                    if blobs_vec.len() >= num_expected_blobs {
                        let max_blobs = spec.max_blobs_per_block(block.epoch());
                        if blobs_vec.len() as u64 > max_blobs {
                            return Err(
                                AvailabilityCheckError::Unexpected(
                                    String::from_str("blob count exceeded max"),
                                ),
                            );
                        }
                        let recovered = recover(block.clone_diet())?;
                        self.create_available_block(
                            recovered,
                            AvailableBlockData::Blobs(blobs_vec),
                            spec,
                        )
                    } else {
                        Ok(None)
                    }
                }
            },
            PendingComponents::PostPeerDAS {
                executed_block: Some(block),
                verified_data_columns,
                ..
            } => {
                let num_expected_blobs = block.num_blobs_expected();
                if num_expected_blobs == 0 {
                    let recovered = recover(block.clone_diet())?;
                    self.create_available_block(recovered, AvailableBlockData::NoData, spec)
                } else if let Some(num_expected_columns) = num_expected_columns_opt {
                    if verified_data_columns.len() >= num_expected_columns {
                        let data_columns = verified_data_columns.clone();
                        proof {
                            assert(data_columns@ =~= verified_data_columns@);
                        }
                        let recovered = recover(block.clone_diet())?;
                        self.create_available_block(
                            recovered,
                            AvailableBlockData::DataColumns(data_columns),
                            spec,
                        )
                    } else {
                        Ok(None)
                    }
                } else {
                    Ok(None)
                }
            },
            _ => Ok(None),
        }
    }

    /// Builds the available block from the restored block and its data. The
    /// availability time is the latest time a held blob was seen when the data
    /// is blobs, and unknown otherwise. Never fails.
    pub fn create_available_block(
        &self,
        recovered_block: AvailabilityPendingExecutedBlock,
        blob_data: AvailableBlockData,
        spec: &ChainSpec,
    ) -> (r: Result<Option<AvailableExecutedBlock>, AvailabilityCheckError>)
        ensures
            r matches Ok(Some(b)) && {
                &&& b.block.block_root == self.spec_block_root()
                &&& b.block.block@ == recovered_block.block@
                &&& b.block.blob_data@ == blob_data@
                &&& b.block.spec == *spec
                &&& b.block.blobs_available_timestamp == (match blob_data {
                    AvailableBlockData::Blobs(_) => match self {
                        PendingComponents::PostDeneb { verified_blobs, .. } => latest_seen(
                            verified_blobs@,
                        ),
                        _ => None,
                    },
                    _ => None,
                })
                &&& b.import_data == recovered_block.import_data
                &&& b.payload_verification_outcome == recovered_block.payload_verification_outcome
            },
    {
        let blobs_available_timestamp = match &blob_data {
            AvailableBlockData::NoData => None,
            AvailableBlockData::Blobs(_) => {
                match self {
                    PendingComponents::PostDeneb { verified_blobs, .. } => latest_seen_of(
                        verified_blobs,
                    ),
                    _ => None,
                }
            },
            AvailableBlockData::DataColumns(_) => None,
        };
        let AvailabilityPendingExecutedBlock { block, import_data, payload_verification_outcome } =
            recovered_block;
        let block_root = match self {
            PendingComponents::PostDeneb { block_root, .. } => *block_root,
            PendingComponents::PostPeerDAS { block_root, .. } => *block_root,
        };
        let available_block = AvailableBlock {
            block_root,
            block,
            blob_data,
            blobs_available_timestamp,
            spec: *spec,
        };
        Ok(Some(AvailableExecutedBlock::new(available_block, import_data, payload_verification_outcome)))
    }
}

/// Whether some column in `v` has index `index`.
fn has_column_index(v: &Vec<KzgVerifiedCustodyDataColumn>, index: u64) -> (r: bool)
    ensures
        r == exists|j: int| 0 <= j < v@.len() && v@[j].index == index,
{
    let mut i: usize = 0;
    while i < v.len()
        invariant
            i <= v@.len(),
            forall|k: int| 0 <= k < i ==> v@[k].index != index,
        decreases v@.len() - i,
    {
        if v[i].index() == index {
            return true;
        }
        i = i + 1;
    }
    false
}

/// The held blobs, in index order.
fn held_list(slots: &Vec<Option<KzgVerifiedBlob>>) -> (r: Vec<KzgVerifiedBlob>)
    ensures
        r@ == held_blobs(slots@),
{
    let mut out: Vec<KzgVerifiedBlob> = Vec::new();
    let mut i: usize = 0;
    while i < slots.len()
        invariant
            i <= slots@.len(),
            out@ == held_blobs(slots@.take(i as int)),
        decreases slots@.len() - i,
    {
        proof {
            assert(slots@.take(i as int + 1).drop_last() =~= slots@.take(i as int));
        }
        if let Some(b) = slots[i] {
            out.push(b);
        }
        i = i + 1;
    }
    proof {
        assert(slots@.take(i as int) =~= slots@);
    }
    out
}

/// The number of held blobs.
fn count_held(slots: &Vec<Option<KzgVerifiedBlob>>) -> (r: usize)
    ensures
        r == held_blobs(slots@).len(),
{
    let v = held_list(slots);
    v.len()
}

/// The latest time a held blob was seen.
fn latest_seen_of(slots: &Vec<Option<KzgVerifiedBlob>>) -> (r: Option<u64>)
    ensures
        r == latest_seen(slots@),
{
    let mut best: Option<u64> = None;
    let mut i: usize = 0;
    while i < slots.len()
        invariant
            i <= slots@.len(),
            best == latest_seen(slots@.take(i as int)),
        decreases slots@.len() - i,
    {
        proof {
            assert(slots@.take(i as int + 1).drop_last() =~= slots@.take(i as int));
        }
        if let Some(b) = slots[i] {
            best = match best {
                Some(t) => Some(if t >= b.seen_timestamp { t } else { b.seen_timestamp }),
                None => Some(b.seen_timestamp),
            };
        }
        i = i + 1;
    }
    proof {
        assert(slots@.take(i as int) =~= slots@);
    }
    best
}

/// Once the block is known, the blobs that match its commitments are always
/// taken: merging one such blob per commitment fills every commitment's slot
/// with that blob, whatever the slots held before.
pub proof fn matching_blobs_fill_slots(
    commitments: Seq<KzgCommitment>,
    slots: Seq<Option<KzgVerifiedBlob>>,
    blobs: Seq<Option<KzgVerifiedBlob>>,
)
    requires
        commitments.len() <= slots.len(),
        commitments.len() <= blobs.len(),
        forall|i: int|
            0 <= i < commitments.len() ==> (#[trigger] blobs[i] matches Some(b) && b.kzg_commitment
                == commitments[i]),
    ensures
        forall|i: int|
            0 <= i < commitments.len() ==> #[trigger] merge_prefix(
                Some(commitments),
                slots,
                blobs,
                blobs.len(),
            )[i] == blobs[i],
{
    lemma_matching_prefix(commitments, slots, blobs, blobs.len());
}

proof fn lemma_matching_prefix(
    commitments: Seq<KzgCommitment>,
    slots: Seq<Option<KzgVerifiedBlob>>,
    blobs: Seq<Option<KzgVerifiedBlob>>,
    n: nat,
)
    requires
        commitments.len() <= slots.len(),
        n <= blobs.len(),
        forall|i: int|
            0 <= i < commitments.len() && i < blobs.len() ==> (#[trigger] blobs[i] matches Some(b)
                && b.kzg_commitment == commitments[i]),
    ensures
        merge_prefix(Some(commitments), slots, blobs, n).len() == slots.len(),
        forall|i: int|
            0 <= i < commitments.len() && i < n ==> #[trigger] merge_prefix(
                Some(commitments),
                slots,
                blobs,
                n,
            )[i] == blobs[i],
    decreases n,
{
    if n > 0 {
        lemma_matching_prefix(commitments, slots, blobs, (n - 1) as nat);
        let prev = merge_prefix(Some(commitments), slots, blobs, (n - 1) as nat);
        let cur = merge_prefix(Some(commitments), slots, blobs, n);
        assert forall|i: int| 0 <= i < commitments.len() && i < n implies #[trigger] cur[i]
            == blobs[i] by {
            if i < n - 1 {
                assert(prev[i] == blobs[i]);
            }
        }
    }
}

/// A block is made available only once all its data is held: a pre-PeerDAS
/// block that commits to `n > 0` blobs waits while fewer than `n` blobs are
/// held, is refused when more than `max_blobs` are, and is otherwise ready
/// with exactly the held blobs; one that commits to none is ready with no
/// data. A PeerDAS block with blobs waits until the expected number of
/// columns is known and held, and is then ready with the held columns.
/// Without a block nothing is ready. (`make_available` answers `Ok(None)`
/// exactly when nothing is ready.)
pub proof fn availability_needs_all_data(
    pc: PendingComponents,
    max_blobs: int,
    num_expected_columns_opt: Option<usize>,
)
    ensures
        pc.spec_block() is None ==> pc.readiness(max_blobs, num_expected_columns_opt) is NotReady,
        match pc {
            PendingComponents::PostDeneb { executed_block: Some(block), verified_blobs, .. } => {
                let n = block.block.blob_kzg_commitments@.len();
                let held = held_blobs(verified_blobs@);
                let r = pc.readiness(max_blobs, num_expected_columns_opt);
                &&& n == 0 ==> r == Readiness::Ready(BlobDataView::NoData)
                &&& n > 0 && held.len() < n ==> r is NotReady
                &&& n > 0 && held.len() >= n && held.len() > max_blobs ==> r is TooManyBlobs
                &&& n > 0 && n <= held.len() <= max_blobs ==> r == Readiness::Ready(
                    BlobDataView::Blobs(held),
                )
                &&& (r matches Readiness::Ready(BlobDataView::Blobs(h)) ==> n <= h.len() <= max_blobs)
            },
            PendingComponents::PostPeerDAS {
                executed_block: Some(block),
                verified_data_columns,
                ..
            } => {
                let n = block.block.blob_kzg_commitments@.len();
                let r = pc.readiness(max_blobs, num_expected_columns_opt);
                &&& n == 0 ==> r == Readiness::Ready(BlobDataView::NoData)
                &&& n > 0 && num_expected_columns_opt is None ==> r is NotReady
                &&& n > 0 && num_expected_columns_opt is Some && verified_data_columns@.len()
                    < num_expected_columns_opt->0 ==> r is NotReady
                &&& n > 0 && num_expected_columns_opt is Some && verified_data_columns@.len()
                    >= num_expected_columns_opt->0 ==> r == Readiness::Ready(
                    BlobDataView::DataColumns(verified_data_columns@),
                )
            },
            _ => true,
        },
{
}

} // verus!
