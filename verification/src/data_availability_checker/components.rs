//! Verified blobs and columns held for a block, what a block requires, and
//! the check of one against the other.
use std::collections::HashMap;
use vstd::prelude::*;
use vstd::std_specs::iter::IteratorSpec;
use crate::blocks::{
    AvailableBlock, AvailableBlockData, AvailableExecutedBlock, BlobSidecar, BlobDataView,
    DataColumnSidecar, KzgVerifiedBlob, KzgVerifiedCustodyDataColumn,
};
use crate::clock::unix_time_millis;
use crate::text::{decimal, push_decimal};

verus! {

broadcast use vstd::std_specs::hash::group_hash_axioms;

pub type BlobIndex = u64;

pub type ColumnIndex = u64;

/// Half of `n`, rounded up: the number of columns from which the rest can be
/// reconstructed.
pub open spec fn half_rounded_up(n: int) -> int {
    (n + 1) / 2
}

/// Whether adding `blob` to `blobs` conflicts with a different blob already
/// held at its index.
pub open spec fn blob_conflicts(blobs: Map<u64, KzgVerifiedBlob>, blob: KzgVerifiedBlob) -> bool {
    blobs.contains_key(blob.index) && blobs[blob.index].kzg_commitment != blob.kzg_commitment
}

/// Whether adding `column` to `columns` conflicts with a different column
/// already held at its index.
pub open spec fn column_conflicts(
    columns: Map<u64, KzgVerifiedCustodyDataColumn>,
    column: KzgVerifiedCustodyDataColumn,
) -> bool {
    columns.contains_key(column.index) && columns[column.index].kzg_commitment
        != column.kzg_commitment
}

/// Holds verified components (blobs and columns) for a block, each keyed by
/// its index.
#[derive(Debug)]
pub struct VerifiedComponents {
    pub blobs: HashMap<BlobIndex, KzgVerifiedBlob>,
    pub columns: HashMap<ColumnIndex, KzgVerifiedCustodyDataColumn>,
}

impl VerifiedComponents {
    /// Every blob and column is held under its own index.
    pub open spec fn wf(&self) -> bool {
        &&& forall|k: u64| #[trigger] self.blobs@.contains_key(k) ==> self.blobs@[k].index == k
        &&& forall|k: u64| #[trigger] self.columns@.contains_key(k) ==> self.columns@[k].index == k
    }

    pub fn new() -> (c: VerifiedComponents)
        ensures
            c.blobs@ == Map::<u64, KzgVerifiedBlob>::empty(),
            c.columns@ == Map::<u64, KzgVerifiedCustodyDataColumn>::empty(),
            c.wf(),
    {
        VerifiedComponents { blobs: HashMap::new(), columns: HashMap::new() }
    }

    /// Adds a blob under its index. A blob already held at that index may only
    /// be replaced by one with the same commitment.
    pub fn add_blob(&mut self, blob: KzgVerifiedBlob) -> (r: Result<(), ComponentError>)
        ensures
            r is Err <==> blob_conflicts(old(self).blobs@, blob),
            r matches Err(e) ==> e == ComponentError::ConflictingBlob(blob.index),
            final(self).blobs@ == (if r is Ok {
                old(self).blobs@.insert(blob.index, blob)
            } else {
                old(self).blobs@
            }),
            final(self).columns@ == old(self).columns@,
            old(self).wf() ==> final(self).wf(),
    {
        let index = blob.blob_index();
        if self.blobs.contains_key(&index) {
            let existing = self.blobs.get(&index).unwrap();
            if existing.kzg_commitment != blob.kzg_commitment {
                return Err(ComponentError::ConflictingBlob(index));
            }
        }
        self.blobs.insert(index, blob);
        Ok(())
    }

    /// Adds a column under its index. A column already held at that index may
    /// only be replaced by one with the same commitment.
    pub fn add_column(&mut self, column: KzgVerifiedCustodyDataColumn) -> (r: Result<
        (),
        ComponentError,
    >)
        ensures
            r is Err <==> column_conflicts(old(self).columns@, column),
            r matches Err(e) ==> e == ComponentError::ConflictingColumn(column.index),
            final(self).columns@ == (if r is Ok {
                old(self).columns@.insert(column.index, column)
            } else {
                old(self).columns@
            }),
            final(self).blobs@ == old(self).blobs@,
            old(self).wf() ==> final(self).wf(),
    {
        let index = column.index();
        if self.columns.contains_key(&index) {
            let existing = self.columns.get(&index).unwrap();
            if existing.kzg_commitment != column.kzg_commitment {
                return Err(ComponentError::ConflictingColumn(index));
            }
        }
        self.columns.insert(index, column);
        Ok(())
    }

    pub fn blob_count(&self) -> (r: usize)
        ensures
            r == self.blobs@.len(),
    {
        self.blobs.len()
    }

    pub fn column_count(&self) -> (r: usize)
        ensures
            r == self.columns@.len(),
    {
        self.columns.len()
    }

    pub fn has_blob(&self, index: BlobIndex) -> (r: bool)
        ensures
            r == self.blobs@.contains_key(index),
    {
        self.blobs.contains_key(&index)
    }

    pub fn has_column(&self, index: ColumnIndex) -> (r: bool)
        ensures
            r == self.columns@.contains_key(index),
    {
        self.columns.contains_key(&index)
    }

    pub fn get_blob(&self, index: BlobIndex) -> (r: Option<&KzgVerifiedBlob>)
        ensures
            r == (if self.blobs@.contains_key(index) {
                Some(&self.blobs@[index])
            } else {
                None
            }),
    {
        self.blobs.get(&index)
    }

    pub fn get_column(&self, index: ColumnIndex) -> (r: Option<&KzgVerifiedCustodyDataColumn>)
        ensures
            r == (if self.columns@.contains_key(index) {
                Some(&self.columns@[index])
            } else {
                None
            }),
    {
        self.columns.get(&index)
    }

    /// All blob indices we have, each once, in no particular order.
    pub fn blob_indices(&self) -> (r: Vec<BlobIndex>)
        ensures
            r@.to_set() == self.blobs@.dom(),
            r@.no_duplicates(),
            r@.len() == self.blobs@.len(),
    {
        key_list(&self.blobs)
    }

    /// All column indices we have, each once, in no particular order.
    pub fn column_indices(&self) -> (r: Vec<ColumnIndex>)
        ensures
            r@.to_set() == self.columns@.dom(),
            r@.no_duplicates(),
            r@.len() == self.columns@.len(),
    {
        key_list(&self.columns)
    }

    /// All held columns, each once, in no particular order.
    pub fn column_values(&self) -> (r: Vec<KzgVerifiedCustodyDataColumn>)
        ensures
            exists|ks: Seq<u64>|
                ks.to_set() == self.columns@.dom() && ks.no_duplicates() && ks.len() == r@.len()
                    && forall|i: int| 0 <= i < ks.len() ==> r@[i] == self.columns@[#[trigger] ks[i]],
    {
        let keys = self.column_indices();
        let ghost ks = keys@;
        let mut out: Vec<KzgVerifiedCustodyDataColumn> = Vec::new();
        let mut i: usize = 0;
        while i < keys.len()
            invariant
                keys@ == ks,
                ks.to_set() == self.columns@.dom(),
                i <= ks.len(),
                out@.len() == i,
                forall|j: int| 0 <= j < i ==> out@[j] == self.columns@[#[trigger] ks[j]],
            decreases ks.len() - i,
        {
            let k = keys[i];
            proof {
                assert(ks.to_set().contains(ks[i as int]));
            }
            let c = *self.columns.get(&k).unwrap();
            out.push(c);
            i = i + 1;
        }
        out
    }

    /// Whether we hold enough columns (at least half of `total_columns`,
    /// rounded up) to attempt reconstruction.
    pub fn can_reconstruct(&self, total_columns: u64) -> (r: bool)
        ensures
            r == (self.columns@.len() >= half_rounded_up(total_columns as int)),
    {
        let needed: u64 = total_columns / 2 + total_columns % 2;
        (self.columns.len() as u64) >= needed
    }
}

/// The keys of `m`, each once, in the order the map yields them.
fn key_list<V>(m: &HashMap<u64, V>) -> (r: Vec<u64>)
    ensures
        r@.to_set() == m@.dom(),
        r@.no_duplicates(),
        r@.len() == m@.len(),
{
    let keys = m.keys();
    let ghost s = keys.remaining();
    proof {
        assert(s.unref().to_set() == m@.dom());
        assert(s.len() == m@.len());
        assert forall|i: int, j: int| 0 <= i < s.len() && 0 <= j < s.len() && i != j implies
            s.unref()[i] != s.unref()[j] by {
            assert(s[i] != s[j]);
        }
    }
    let mut out: Vec<u64> = Vec::new();
    for k in it: keys
        invariant
            it.seq() == s,
            out@ == s.unref().take(it.index() as int),
            it.index() <= s.len(),
    {
        out.push(*k);
        proof {
            assert(s.unref().take(it.index() as int + 1) =~= out@);
        }
    }
    proof {
        assert(out@ =~= s.unref());
    }
    out
}

/// Holds partial components during reconstruction.
#[derive(Debug)]
pub struct PartialComponents {
    pub columns: HashMap<ColumnIndex, KzgVerifiedCustodyDataColumn>,
    pub total_expected: u64,
}

/// The indices below `n` that `dom` does not contain, in increasing order.
pub open spec fn missing_below(dom: Set<u64>, n: nat) -> Seq<u64>
    decreases n,
{
    if n == 0 {
        Seq::empty()
    } else {
        let prev = missing_below(dom, (n - 1) as nat);
        if dom.contains((n - 1) as u64) {
            prev
        } else {
            prev.push((n - 1) as u64)
        }
    }
}

impl PartialComponents {
    pub fn new(total_expected: u64) -> (p: PartialComponents)
        ensures
            p.columns@ == Map::<u64, KzgVerifiedCustodyDataColumn>::empty(),
            p.total_expected == total_expected,
    {
        PartialComponents { columns: HashMap::new(), total_expected }
    }

    /// Starts reconstruction from the columns already verified.
    pub fn from_components(components: VerifiedComponents, total_expected: u64) -> (p:
        PartialComponents)
        ensures
            p.columns@ == components.columns@,
            p.total_expected == total_expected,
    {
        PartialComponents { columns: components.columns, total_expected }
    }

    /// Adds a column; its index must be below the expected total.
    pub fn add_column(&mut self, column: KzgVerifiedCustodyDataColumn) -> (r: Result<
        (),
        ComponentError,
    >)
        ensures
            r is Err <==> column.index >= old(self).total_expected,
            r matches Err(e) ==> e == ComponentError::IndexOutOfRange(column.index),
            final(self).columns@ == (if r is Ok {
                old(self).columns@.insert(column.index, column)
            } else {
                old(self).columns@
            }),
            final(self).total_expected == old(self).total_expected,
    {
        let index = column.index();
        if index >= self.total_expected {
            return Err(ComponentError::IndexOutOfRange(index));
        }
        self.columns.insert(index, column);
        Ok(())
    }

    pub fn column_count(&self) -> (r: usize)
        ensures
            r == self.columns@.len(),
    {
        self.columns.len()
    }

    /// Whether every expected column is present.
    pub fn is_complete(&self) -> (r: bool)
        ensures
            r == (self.columns@.len() == self.total_expected),
    {
        (self.columns.len() as u64) == self.total_expected
    }

    /// Whether at least half of the expected columns (rounded up) are present.
    pub fn can_reconstruct(&self) -> (r: bool)
        ensures
            r == (self.columns@.len() >= half_rounded_up(self.total_expected as int)),
    {
        let needed: u64 = self.total_expected / 2 + self.total_expected % 2;
        (self.columns.len() as u64) >= needed
    }

    /// The expected column indices that are not present, in increasing order.
    pub fn missing_indices(&self) -> (r: Vec<ColumnIndex>)
        ensures
            r@ == missing_below(self.columns@.dom(), self.total_expected as nat),
    {
        let mut out: Vec<u64> = Vec::new();
        let mut i: u64 = 0;
        while i < self.total_expected
            invariant
                i <= self.total_expected,
                out@ == missing_below(self.columns@.dom(), i as nat),
            decreases self.total_expected - i,
        {
            if !self.columns.contains_key(&i) {
                out.push(i);
            }
            i = i + 1;
        }
        out
    }
}

/// The indices of `idx` that `dom` does not contain, in the order of `idx`.
pub open spec fn missing_from(idx: Seq<u64>, dom: Set<u64>) -> Seq<u64>
    decreases idx.len(),
{
    if idx.len() == 0 {
        Seq::empty()
    } else {
        let prev = missing_from(idx.drop_last(), dom);
        if dom.contains(idx.last()) {
            prev
        } else {
            prev.push(idx.last())
        }
    }
}

/// Requirements for what components a block needs.
#[derive(Debug)]
pub struct ComponentRequirements {
    pub blob_indices: Vec<BlobIndex>,
    pub column_indices: Vec<ColumnIndex>,
    pub can_use_reconstruction: bool,
}

/// Result of checking if requirements are met.
#[derive(Debug)]
pub enum RequirementCheck {
    /// All requirements satisfied
    Complete,
    /// Missing some components
    Missing { blobs: Vec<BlobIndex>, columns: Vec<ColumnIndex> },
    /// Can reconstruct missing components
    CanReconstruct,
}

impl ComponentRequirements {
    pub fn new(
        blob_indices: Vec<BlobIndex>,
        column_indices: Vec<ColumnIndex>,
        can_use_reconstruction: bool,
    ) -> (r: ComponentRequirements)
        ensures
            r.blob_indices@ == blob_indices@,
            r.column_indices@ == column_indices@,
            r.can_use_reconstruction == can_use_reconstruction,
    {
        ComponentRequirements { blob_indices, column_indices, can_use_reconstruction }
    }

    /// Required blob indices that `components` lacks.
    pub open spec fn missing_blobs(&self, components: &VerifiedComponents) -> Seq<u64> {
        missing_from(self.blob_indices@, components.blobs@.dom())
    }

    /// Required column indices that `components` lacks.
    pub open spec fn missing_columns(&self, components: &VerifiedComponents) -> Seq<u64> {
        missing_from(self.column_indices@, components.columns@.dom())
    }

    /// Whether nothing required is missing.
    pub open spec fn spec_complete(&self, components: &VerifiedComponents) -> bool {
        self.missing_blobs(components).len() == 0 && self.missing_columns(components).len() == 0
    }

    /// Whether something is missing, columns among it, reconstruction may be
    /// used, and enough columns are held for it.
    pub open spec fn spec_can_reconstruct(&self, components: &VerifiedComponents) -> bool {
        &&& !self.spec_complete(components)
        &&& self.missing_columns(components).len() != 0
        &&& self.can_use_reconstruction
        &&& components.columns@.len() >= half_rounded_up(self.column_indices@.len() as int)
    }

    /// Checks `components` against the requirements: complete, reconstructable,
    /// or missing the listed blobs and columns (each list in requirement order).
    pub fn is_satisfied_by(&self, components: &VerifiedComponents) -> (r: RequirementCheck)
        ensures
            (r is Complete) == self.spec_complete(components),
            (r is CanReconstruct) == self.spec_can_reconstruct(components),
            r matches RequirementCheck::Missing { blobs, columns } ==> blobs@ == self.missing_blobs(
                components,
            ) && columns@ == self.missing_columns(components),
    {
        let missing_blobs = missing_of(&self.blob_indices, &components.blobs);
        let missing_columns = missing_of(&self.column_indices, &components.columns);
        if missing_blobs.len() == 0 && missing_columns.len() == 0 {
            RequirementCheck::Complete
        } else if missing_columns.len() == 0 || !self.can_use_reconstruction {
            RequirementCheck::Missing { blobs: missing_blobs, columns: missing_columns }
        } else {
            if components.can_reconstruct(self.column_indices.len() as u64) {
                RequirementCheck::CanReconstruct
            } else {
                RequirementCheck::Missing { blobs: missing_blobs, columns: missing_columns }
            }
        }
    }
}

/// The entries of `idx` that are not keys of `m`, in order.
fn missing_of<V>(idx: &Vec<u64>, m: &HashMap<u64, V>) -> (r: Vec<u64>)
    ensures
        r@ == missing_from(idx@, m@.dom()),
{
    let mut out: Vec<u64> = Vec::new();
    let mut i: usize = 0;
    while i < idx.len()
        invariant
            i <= idx@.len(),
            out@ == missing_from(idx@.take(i as int), m@.dom()),
        decreases idx@.len() - i,
    {
        proof {
            assert(idx@.take(i as int + 1).drop_last() =~= idx@.take(i as int));
        }
        if !m.contains_key(&idx[i]) {
            out.push(idx[i]);
        }
        i = i + 1;
    }
    proof {
        assert(idx@.take(i as int) =~= idx@);
    }
    out
}

/// The values of `m`, each once, in the order the map yields them.
fn value_list<V: Copy>(m: HashMap<u64, V>) -> (r: Vec<V>)
    ensures
        r@.to_set() == m@.values(),
        r@.len() == m@.len(),
{
    let values = m.values();
    let ghost s = values.remaining();
    proof {
        assert(s.unref().to_set() == m@.values());
        assert(s.len() == m@.len());
    }
    let mut out: Vec<V> = Vec::new();
    for v in it: values
        invariant
            it.seq() == s,
            out@ == s.unref().take(it.index() as int),
            it.index() <= s.len(),
    {
        out.push(*v);
        proof {
            assert(s.unref().take(it.index() as int + 1) =~= out@);
        }
    }
    proof {
        assert(out@ =~= s.unref());
    }
    out
}

/// Errors that can occur when working with components.
#[derive(Debug)]
pub enum ComponentError {
    ConflictingBlob(BlobIndex),
    ConflictingColumn(ColumnIndex),
    IndexOutOfRange(ColumnIndex),
    Invalid(String),
}

/// The message describing a component error.
pub open spec fn component_error_message(e: ComponentError) -> Seq<char> {
    match e {
        ComponentError::ConflictingBlob(i) => "Conflicting blob at index "@ + decimal(i as nat),
        ComponentError::ConflictingColumn(i) => "Conflicting column at index "@ + decimal(i as nat),
        ComponentError::IndexOutOfRange(i) => "Index "@ + decimal(i as nat) + " is out of range"@,
        ComponentError::Invalid(msg) => "Invalid component: "@ + msg@,
    }
}

impl ComponentError {
    /// The message describing this error.
    pub fn to_message(&self) -> (s: String)
        ensures
            s@ == component_error_message(*self),
    {
        match self {
            ComponentError::ConflictingBlob(i) => {
                let mut s = String::from_str("Conflicting blob at index ");
                push_decimal(&mut s, *i);
                s
            },
            ComponentError::ConflictingColumn(i) => {
                let mut s = String::from_str("Conflicting column at index ");
                push_decimal(&mut s, *i);
                s
            },
            ComponentError::IndexOutOfRange(i) => {
                let mut s = String::from_str("Index ");
                push_decimal(&mut s, *i);
                s.append(" is out of range");
                s
            },
            ComponentError::Invalid(msg) => {
                let mut s = String::from_str("Invalid component: ");
                s.append(msg.as_str());
                s
            },
        }
    }
}

/// Whether `data` is what a block built from these blobs and columns carries:
/// the blobs if there are any, else the columns if there are any, else no data.
/// Each list holds every cached item once, in no particular order.
pub open spec fn components_data_matches(
    data: BlobDataView,
    blobs: Map<u64, KzgVerifiedBlob>,
    columns: Map<u64, KzgVerifiedCustodyDataColumn>,
) -> bool {
    if blobs.len() != 0 {
        data matches BlobDataView::Blobs(b) && b.to_set() == blobs.values() && b.len()
            == blobs.len()
    } else if columns.len() != 0 {
        data matches BlobDataView::DataColumns(c) && c.to_set() == columns.values() && c.len()
            == columns.len()
    } else {
        data is NoData
    }
}

/// Whether `out` is `executed` made available with the given blobs and columns:
/// same block, root taken from the import data, data as described by
/// [`components_data_matches`], and an availability time stamped.
pub open spec fn completes_with(
    out: &AvailableExecutedBlock,
    executed: &AvailableExecutedBlock,
    blobs: Map<u64, KzgVerifiedBlob>,
    columns: Map<u64, KzgVerifiedCustodyDataColumn>,
) -> bool {
    &&& out.block.block_root == executed.import_data.block_root
    &&& out.block.block@ == executed.block.block@
    &&& out.block.spec == executed.block.spec
    &&& out.block.blobs_available_timestamp is Some
    &&& components_data_matches(out.block.blob_data@, blobs, columns)
    &&& out.import_data == executed.import_data
    &&& out.payload_verification_outcome == executed.payload_verification_outcome
}

impl AvailableExecutedBlock {
    /// Replaces the block's data by the verified components (their blobs if
    /// there are any, else their columns if any, else no data) and stamps the
    /// time at which it became available. Never fails.
    pub fn from_executed_block_and_components(
        executed_block: AvailableExecutedBlock,
        components: VerifiedComponents,
    ) -> (r: Result<AvailableExecutedBlock, ComponentError>)
        ensures
            r matches Ok(b) && completes_with(
                &b,
                &executed_block,
                components.blobs@,
                components.columns@,
            ),
    {
        let ghost comps = components;
        let blob_count = components.blobs.len();
        let column_count = components.columns.len();
        let VerifiedComponents { blobs, columns } = components;
        let blob_data = if blob_count != 0 {
            AvailableBlockData::Blobs(value_list(blobs))
        } else if column_count != 0 {
            AvailableBlockData::DataColumns(value_list(columns))
        } else {
            AvailableBlockData::NoData
        };
        let AvailableExecutedBlock { block, import_data, payload_verification_outcome } =
            executed_block;
        let updated_available_block = AvailableBlock {
            block_root: import_data.block_root,
            block: block.block,
            blob_data,
            blobs_available_timestamp: Some(unix_time_millis()),
            spec: block.spec,
        };
        Ok(AvailableExecutedBlock {
            block: updated_available_block,
            import_data,
            payload_verification_outcome,
        })
    }
}

} // verus!
