//! Fork-specific component collections: one blob slot per index before
//! PeerDAS, a list of data columns ordered by index after it. Each type holds
//! only its own kind of component.
use vstd::prelude::*;
use crate::blocks::{BlobSidecar, DataColumnSidecar, KzgVerifiedBlob, KzgVerifiedCustodyDataColumn};
use crate::data_availability_checker::pending_components::{held_blobs, merge_columns_seq};

verus! {

/// Fills the slot of `blob`'s index with it, if that slot exists and is
/// empty; otherwise leaves the slots unchanged.
pub open spec fn fill_slot(slots: Seq<Option<KzgVerifiedBlob>>, blob: KzgVerifiedBlob) -> Seq<
    Option<KzgVerifiedBlob>,
> {
    if blob.index < slots.len() && slots[blob.index as int] is None {
        slots.update(blob.index as int, Some(blob))
    } else {
        slots
    }
}

/// Fills slots with `blobs`, one after another, by [`fill_slot`].
pub open spec fn fill_slots(slots: Seq<Option<KzgVerifiedBlob>>, blobs: Seq<KzgVerifiedBlob>) -> Seq<
    Option<KzgVerifiedBlob>,
>
    decreases blobs.len(),
{
    if blobs.len() == 0 {
        slots
    } else {
        fill_slot(fill_slots(slots, blobs.drop_last()), blobs.last())
    }
}

/// Every index below `expected` has a filled slot, so no more blobs are
/// expected than there are slots; always true when `expected` is zero.
pub open spec fn first_slots_filled(slots: Seq<Option<KzgVerifiedBlob>>, expected: u64) -> bool {
    expected == 0 || forall|i: int| 0 <= i < expected ==> i < slots.len() && #[trigger] slots[i] is Some
}

/// With the first `n` slots filled, at least `n` blobs are held.
pub proof fn lemma_filled_prefix_count(slots: Seq<Option<KzgVerifiedBlob>>, n: int)
    requires
        0 <= n <= slots.len(),
        forall|i: int| 0 <= i < n ==> #[trigger] slots[i] is Some,
    ensures
        held_blobs(slots).len() >= n,
    decreases slots.len(),
{
    if slots.len() > 0 {
        let rest = slots.drop_last();
        if n == slots.len() {
            assert(slots[n - 1] is Some);
            assert forall|i: int| 0 <= i < n - 1 implies #[trigger] rest[i] is Some by {
                assert(slots[i] is Some);
            }
            lemma_filled_prefix_count(rest, n - 1);
        } else {
            assert forall|i: int| 0 <= i < n implies #[trigger] rest[i] is Some by {
                assert(slots[i] is Some);
            }
            lemma_filled_prefix_count(rest, n);
        }
    }
}

/// The number of filled slots.
pub open spec fn filled_count(slots: Seq<Option<KzgVerifiedBlob>>) -> nat {
    held_blobs(slots).len()
}

/// Blob sidecars of a post-Deneb, pre-PeerDAS block: one slot per index up to
/// the per-block maximum.
#[derive(Debug)]
pub struct BlobCollection {
    blobs: Vec<Option<KzgVerifiedBlob>>,
}

impl View for BlobCollection {
    /// The slots, one per index; their number is the per-block maximum.
    type V = Seq<Option<KzgVerifiedBlob>>;

    closed spec fn view(&self) -> Seq<Option<KzgVerifiedBlob>> {
        self.blobs@
    }
}

impl Clone for BlobCollection {
    fn clone(&self) -> (r: Self)
        ensures
            r@ == self@,
    {
        let b = self.blobs.clone();
        proof {
            assert(b@ =~= self.blobs@);
        }
        BlobCollection { blobs: b }
    }
}

impl BlobCollection {
    /// An empty collection with `max_blobs` slots.
    pub fn new(max_blobs: usize) -> (r: BlobCollection)
        ensures
            r@ == Seq::new(max_blobs as nat, |i: int| None::<KzgVerifiedBlob>),
    {
        let mut blobs: Vec<Option<KzgVerifiedBlob>> = Vec::new();
        let mut i: usize = 0;
        while i < max_blobs
            invariant
                i <= max_blobs,
                blobs@ == Seq::new(i as nat, |j: int| None::<KzgVerifiedBlob>),
            decreases max_blobs - i,
        {
            blobs.push(None);
            i = i + 1;
            proof {
                assert(blobs@ =~= Seq::new(i as nat, |j: int| None::<KzgVerifiedBlob>));
            }
        }
        BlobCollection { blobs }
    }

    /// The number of slots (the per-block maximum).
    pub fn max_blobs(&self) -> (r: usize)
        ensures
            r == self@.len(),
    {
        self.blobs.len()
    }

    /// Puts each blob into the slot of its index, in order, when that slot
    /// exists and is still empty: a blob already held is never replaced.
    pub fn merge_blobs(&mut self, new_blobs: Vec<KzgVerifiedBlob>)
        ensures
            final(self)@ == fill_slots(old(self)@, new_blobs@),
            final(self)@.len() == old(self)@.len(),
            forall|i: int|
                0 <= i < old(self)@.len() && (#[trigger] old(self)@[i]) is Some ==> final(self)@[i]
                    == old(self)@[i],
    {
        let ghost start = self.blobs@;
        let mut k: usize = 0;
        while k < new_blobs.len()
            invariant
                k <= new_blobs@.len(),
                self.blobs@ == fill_slots(start, new_blobs@.take(k as int)),
                self.blobs@.len() == start.len(),
                forall|i: int|
                    0 <= i < start.len() && (#[trigger] start[i]) is Some ==> self.blobs@[i]
                        == start[i],
            decreases new_blobs@.len() - k,
        {
            let blob = new_blobs[k];
            proof {
                assert(new_blobs@.take(k as int + 1).drop_last() =~= new_blobs@.take(k as int));
            }
            let index = blob.blob_index();
            if index < self.blobs.len() as u64 {
                let i = index as usize;
                if self.blobs[i].is_none() {
                    self.blobs.set(i, Some(blob));
                }
            }
            k = k + 1;
        }
        proof {
            assert(new_blobs@.take(k as int) =~= new_blobs@);
        }
    }

    /// Whether every required blob is held: each index below
    /// `expected_count` has a filled slot (true when no blobs are expected,
    /// false when more are expected than there are slots).
    pub fn is_complete(&self, expected_count: u64) -> (r: bool)
        ensures
            r == first_slots_filled(self@, expected_count),
            r ==> filled_count(self@) >= expected_count,
    {
        if expected_count == 0 {
            return true;
        }
        if expected_count > self.blobs.len() as u64 {
            proof {
                let k: int = self.blobs@.len() as int;
                assert(0 <= k < expected_count && !(k < self.blobs@.len() && #[trigger] self.blobs@[k] is Some));
            }
            return false;
        }
        let mut i: usize = 0;
        while i < self.blobs.len() && (i as u64) < expected_count
            invariant
                i <= expected_count <= self.blobs@.len(),
                expected_count > 0,
                forall|j: int| 0 <= j < i ==> #[trigger] self.blobs@[j] is Some,
            decreases expected_count - i,
        {
            if self.blobs[i].is_none() {
                return false;
            }
            i = i + 1;
        }
        proof {
            lemma_filled_prefix_count(self.blobs@, expected_count as int);
        }
        true
    }

    /// The held blobs, in index order.
    pub fn into_blob_list(self) -> (r: Vec<BlobSidecar>)
        ensures
            r@ == held_blobs(self@),
    {
        self.blob_list()
    }

    /// A copy of the held blobs, in index order.
    pub fn blob_list(&self) -> (r: Vec<BlobSidecar>)
        ensures
            r@ == held_blobs(self@),
    {
        let mut out: Vec<BlobSidecar> = Vec::new();
        let mut i: usize = 0;
        while i < self.blobs.len()
            invariant
                i <= self.blobs@.len(),
                out@ == held_blobs(self.blobs@.take(i as int)),
            decreases self.blobs@.len() - i,
        {
            proof {
                assert(self.blobs@.take(i as int + 1).drop_last() =~= self.blobs@.take(i as int));
            }
            if let Some(b) = self.blobs[i] {
                out.push(b.clone_blob());
            }
            i = i + 1;
        }
        proof {
            assert(self.blobs@.take(i as int) =~= self.blobs@);
        }
        out
    }

    /// Indices of the filled slots, ascending.
    pub fn cached_indices(&self) -> (r: Vec<u64>)
        ensures
            forall|k: int| 0 <= k < r@.len() ==> (r@[k] < self@.len() && self@[r@[k] as int] is Some),
            forall|i: int| 0 <= i < self@.len() && (#[trigger] self@[i]) is Some ==> r@.contains(i as u64),
            forall|a: int, b: int| 0 <= a < b < r@.len() ==> r@[a] < r@[b],
    {
        let mut out: Vec<u64> = Vec::new();
        let mut i: usize = 0;
        while i < self.blobs.len()
            invariant
                i <= self.blobs@.len(),
                forall|k: int| 0 <= k < out@.len() ==> (out@[k] < i && self.blobs@[out@[k] as int] is Some),
                forall|j: int| 0 <= j < i && (#[trigger] self.blobs@[j]) is Some ==> out@.contains(j as u64),
                forall|a: int, b: int| 0 <= a < b < out@.len() ==> out@[a] < out@[b],
            decreases self.blobs@.len() - i,
        {
            if self.blobs[i].is_some() {
                let ghost before = out@;
                out.push(i as u64);
                proof {
                    assert forall|j: int| 0 <= j <= i && (#[trigger] self.blobs@[j]) is Some implies out@.contains(j as u64) by {
                        if j < i {
                            let w = choose|w: int| 0 <= w < before.len() && before[w] == j as u64;
                            assert(out@[w] == j as u64);
                        } else {
                            assert(out@[out@.len() - 1] == i as u64);
                        }
                    }
                }
            }
            i = i + 1;
        }
        out
    }

    /// The blob in slot `index`, if that slot exists and is filled.
    pub fn get_blob(&self, index: u64) -> (r: Option<&KzgVerifiedBlob>)
        ensures
            r == (if index < self@.len() {
                match self@[index as int] {
                    Some(b) => Some(&b),
                    None => None,
                }
            } else {
                None
            }),
    {
        if index < self.blobs.len() as u64 {
            self.blobs[index as usize].as_ref()
        } else {
            None
        }
    }

    /// Whether slot `index` exists and is filled.
    pub fn has_blob(&self, index: u64) -> (r: bool)
        ensures
            r == (index < self@.len() && self@[index as int] is Some),
    {
        self.get_blob(index).is_some()
    }

    /// The number of filled slots.
    pub fn blob_count(&self) -> (r: usize)
        ensures
            r == filled_count(self@),
    {
        let v = self.blob_list();
        v.len()
    }
}

/// Column indices strictly increase along the list (so no index occurs twice).
pub open spec fn sorted_by_index(s: Seq<KzgVerifiedCustodyDataColumn>) -> bool {
    forall|i: int, j: int| 0 <= i < j < s.len() ==> s[i].index < s[j].index
}

/// The data columns of a post-PeerDAS block, ordered by index, with the
/// reconstruction flag and the expected column count.
#[derive(Debug)]
pub struct ColumnCollection {
    columns: Vec<KzgVerifiedCustodyDataColumn>,
    reconstruction_started: bool,
    expected_count: u64,
}

/// Mathematical value of a [`ColumnCollection`].
pub struct ColumnCollectionView {
    pub columns: Seq<KzgVerifiedCustodyDataColumn>,
    pub reconstruction_started: bool,
    pub expected_count: u64,
}

impl View for ColumnCollection {
    type V = ColumnCollectionView;

    closed spec fn view(&self) -> ColumnCollectionView {
        ColumnCollectionView {
            columns: self.columns@,
            reconstruction_started: self.reconstruction_started,
            expected_count: self.expected_count,
        }
    }
}

impl Clone for ColumnCollection {
    fn clone(&self) -> (r: Self)
        ensures
            r@ == self@,
    {
        let c = self.columns.clone();
        proof {
            assert(c@ =~= self.columns@);
        }
        ColumnCollection {
            columns: c,
            reconstruction_started: self.reconstruction_started,
            expected_count: self.expected_count,
        }
    }
}

impl Default for ColumnCollection {
    fn default() -> (r: Self)
        ensures
            r@.columns.len() == 0,
            !r@.reconstruction_started,
            r@.expected_count == 0,
    {
        Self::new()
    }
}

impl ColumnCollection {
    /// Whether the columns are ordered by strictly increasing index, so that
    /// no index occurs twice; every collection is.
    pub open spec fn wf(&self) -> bool {
        sorted_by_index(self@.columns)
    }

    /// An empty collection: no columns, reconstruction not started, nothing
    /// expected.
    pub fn new() -> (r: ColumnCollection)
        ensures
            r.wf(),
            r@.columns.len() == 0,
            !r@.reconstruction_started,
            r@.expected_count == 0,
    {
        ColumnCollection { columns: Vec::new(), reconstruction_started: false, expected_count: 0 }
    }

    /// Adds each column whose index is not held yet (the first of several
    /// with one index wins), keeping the list ordered by index.
    pub fn merge_columns(&mut self, new_columns: Vec<KzgVerifiedCustodyDataColumn>)
        requires
            old(self).wf(),
        ensures
            final(self).wf(),
            forall|c: KzgVerifiedCustodyDataColumn|
                final(self)@.columns.contains(c) <==> merge_columns_seq(
                    old(self)@.columns,
                    new_columns@,
                ).contains(c),
            forall|c: KzgVerifiedCustodyDataColumn|
                old(self)@.columns.contains(c) ==> final(self)@.columns.contains(c),
            final(self)@.reconstruction_started == old(self)@.reconstruction_started,
            final(self)@.expected_count == old(self)@.expected_count,
    {
        let ghost start = self.columns@;
        let mut k: usize = 0;
        while k < new_columns.len()
            invariant
                k <= new_columns@.len(),
                sorted_by_index(self.columns@),
                forall|c: KzgVerifiedCustodyDataColumn|
                    self.columns@.contains(c) <==> merge_columns_seq(
                        start,
                        new_columns@.take(k as int),
                    ).contains(c),
                self.reconstruction_started == old(self).reconstruction_started,
                self.expected_count == old(self).expected_count,
            decreases new_columns@.len() - k,
        {
            let column = new_columns[k];
            let ghost prev = merge_columns_seq(start, new_columns@.take(k as int));
            proof {
                assert(new_columns@.take(k as int + 1).drop_last() =~= new_columns@.take(k as int));
                assert(new_columns@.take(k as int + 1).last() == column);
            }
            let (found, pos) = find_index_position(&self.columns, column.index());
            proof {
                if found {
                    let c0 = self.columns@[pos as int];
                    assert(self.columns@.contains(c0));
                    assert(prev.contains(c0));
                    let w = choose|w: int| 0 <= w < prev.len() && prev[w] == c0;
                    assert(prev[w].index == column.index);
                } else {
                    assert forall|j: int| 0 <= j < prev.len() implies prev[j].index != column.index by {
                        assert(prev.contains(prev[j]));
                        assert(self.columns@.contains(prev[j]));
                        let w = choose|w: int| 0 <= w < self.columns@.len() && self.columns@[w] == prev[j];
                        assert(self.columns@[w].index != column.index);
                    }
                }
            }
            if !found {
                let ghost before = self.columns@;
                self.columns.insert(pos, column);
                proof {
                    assert(self.columns@ == before.insert(pos as int, column));
                    assert forall|i: int, j: int| 0 <= i < j < self.columns@.len() implies self.columns@[i].index
                        < self.columns@[j].index by {
                        if j < pos {
                        } else if j == pos {
                        } else if i < pos {
                            assert(self.columns@[j] == before[j - 1]);
                        } else if i == pos {
                            assert(self.columns@[j] == before[j - 1]);
                        } else {
                            assert(self.columns@[j] == before[j - 1]);
                            assert(self.columns@[i] == before[i - 1]);
                        }
                    }
                    let next = prev.push(column);
                    assert forall|c: KzgVerifiedCustodyDataColumn| self.columns@.contains(c) <==> next.contains(c) by {
                        if self.columns@.contains(c) {
                            let w = choose|w: int| 0 <= w < self.columns@.len() && self.columns@[w] == c;
                            if w == pos {
                                assert(next[next.len() - 1] == c);
                            } else if w < pos {
                                assert(before[w] == c);
                                assert(before.contains(c));
                                let v = choose|v: int| 0 <= v < prev.len() && prev[v] == c;
                                assert(next[v] == c);
                            } else {
                                assert(before[w - 1] == c);
                                assert(before.contains(c));
                                let v = choose|v: int| 0 <= v < prev.len() && prev[v] == c;
                                assert(next[v] == c);
                            }
                        }
                        if next.contains(c) {
                            let v = choose|v: int| 0 <= v < next.len() && next[v] == c;
                            if v == prev.len() {
                                assert(self.columns@[pos as int] == c);
                            } else {
                                assert(prev[v] == c);
                                assert(prev.contains(c));
                                assert(before.contains(c));
                                let w = choose|w: int| 0 <= w < before.len() && before[w] == c;
                                if w < pos {
                                    assert(self.columns@[w] == c);
                                } else {
                                    assert(self.columns@[w + 1] == c);
                                }
                            }
                        }
                    }
                }
            }
            k = k + 1;
        }
        proof {
            assert(new_columns@.take(k as int) =~= new_columns@);
            lemma_merge_keeps_existing(start, new_columns@);
            assert forall|c: KzgVerifiedCustodyDataColumn| start.contains(c) implies self.columns@.contains(c) by {
                let w = choose|w: int| 0 <= w < start.len() && start[w] == c;
                assert(merge_columns_seq(start, new_columns@)[w] == c);
            }
        }
    }

    /// Whether at least `expected_count` columns are held (true when none are
    /// expected).
    pub fn is_complete(&self, expected_count: u64) -> (r: bool)
        ensures
            r == (expected_count == 0 || self@.columns.len() >= expected_count),
    {
        if expected_count == 0 {
            return true;
        }
        self.columns.len() as u64 >= expected_count
    }

    /// Whether reconstruction may start: at least half of `total_columns`
    /// are held, and it has not started yet. Never with no columns in total.
    pub fn can_start_reconstruction(&self, total_columns: u64) -> (r: bool)
        ensures
            r == (total_columns != 0 && 2 * self@.columns.len() >= total_columns
                && !self@.reconstruction_started),
    {
        if total_columns == 0 {
            return false;
        }
        let required_for_reconstruction = total_columns - total_columns / 2;
        self.columns.len() as u64 >= required_for_reconstruction && !self.reconstruction_started
    }

    /// Whether reconstruction has started and some column is held.
    pub fn is_complete_for_reconstruction(&self) -> (r: bool)
        ensures
            r == (self@.columns.len() > 0 && self@.reconstruction_started),
    {
        self.columns.len() > 0 && self.reconstruction_started
    }

    /// Whether reconstruction has started.
    pub fn reconstruction_started(&self) -> (r: bool)
        ensures
            r == self@.reconstruction_started,
    {
        self.reconstruction_started
    }

    /// The held columns, in index order.
    pub fn into_column_list(self) -> (r: Vec<DataColumnSidecar>)
        ensures
            r@ == self@.columns,
    {
        self.column_list()
    }

    /// A copy of the held columns, in index order.
    pub fn column_list(&self) -> (r: Vec<DataColumnSidecar>)
        ensures
            r@ == self@.columns,
    {
        let c = self.columns.clone();
        proof {
            assert(c@ =~= self.columns@);
        }
        c
    }

    /// The indices of the held columns, in list order.
    pub fn cached_indices(&self) -> (r: Vec<u64>)
        ensures
            r@ == Seq::new(self@.columns.len(), |i: int| self@.columns[i].index),
    {
        let mut out: Vec<u64> = Vec::new();
        let mut i: usize = 0;
        while i < self.columns.len()
            invariant
                i <= self.columns@.len(),
                out@ == Seq::new(i as nat, |j: int| self.columns@[j].index),
            decreases self.columns@.len() - i,
        {
            out.push(self.columns[i].index());
            i = i + 1;
            proof {
                assert(out@ =~= Seq::new(i as nat, |j: int| self.columns@[j].index));
            }
        }
        out
    }

    /// The first held column with index `index`, if any.
    #[verifier::loop_isolation(false)]
    pub fn get_column(&self, index: u64) -> (r: Option<&KzgVerifiedCustodyDataColumn>)
        ensures
            match r {
                Some(c) => exists|j: int|
                    #![trigger self@.columns[j]]
                    0 <= j < self@.columns.len() && self@.columns[j] == *c && c.index == index
                        && forall|k: int| 0 <= k < j ==> self@.columns[k].index != index,
                None => forall|j: int| 0 <= j < self@.columns.len() ==> self@.columns[j].index != index,
            },
    {
        let mut i: usize = 0;
        while i < self.columns.len()
            invariant
                i <= self.columns@.len(),
                forall|k: int| 0 <= k < i ==> self.columns@[k].index != index,
            decreases self.columns@.len() - i,
        {
            if self.columns[i].index() == index {
                let c = &self.columns[i];
                proof {
                    assert(self@.columns[i as int] == *c);
                    assert(forall|k: int| 0 <= k < i ==> self@.columns[k].index != index);
                }
                return Some(c);
            }
            i = i + 1;
        }
        None
    }

    /// Whether a column with index `index` is held.
    pub fn has_column(&self, index: u64) -> (r: bool)
        ensures
            r == exists|j: int| 0 <= j < self@.columns.len() && self@.columns[j].index == index,
    {
        self.get_column(index).is_some()
    }

    /// The number of held columns.
    pub fn column_count(&self) -> (r: usize)
        ensures
            r == self@.columns.len(),
    {
        self.columns.len()
    }

    /// The held columns, in index order.
    pub fn columns(&self) -> (r: &[KzgVerifiedCustodyDataColumn])
        ensures
            r@ == self@.columns,
    {
        self.columns.as_slice()
    }

    /// Records the expected column count.
    pub fn set_expected_count(&mut self, expected_count: u64)
        ensures
            final(self)@.expected_count == expected_count,
            final(self)@.columns == old(self)@.columns,
            final(self)@.reconstruction_started == old(self)@.reconstruction_started,
            old(self).wf() ==> final(self).wf(),
    {
        self.expected_count = expected_count;
    }

    /// The expected column count.
    pub fn expected_count(&self) -> (r: u64)
        ensures
            r == self@.expected_count,
    {
        self.expected_count
    }
}

/// In a list ordered by strictly increasing index: whether `index` occurs,
/// and the position of the first column whose index is at least `index`.
/// Merging only appends: the existing columns stay, in place, at the front.
proof fn lemma_merge_keeps_existing(
    existing: Seq<KzgVerifiedCustodyDataColumn>,
    new: Seq<KzgVerifiedCustodyDataColumn>,
)
    ensures
        merge_columns_seq(existing, new).len() >= existing.len(),
        forall|i: int| 0 <= i < existing.len() ==> merge_columns_seq(existing, new)[i] == existing[i],
    decreases new.len(),
{
    if new.len() > 0 {
        lemma_merge_keeps_existing(existing, new.drop_last());
    }
}

fn find_index_position(columns: &Vec<KzgVerifiedCustodyDataColumn>, index: u64) -> (r: (bool, usize))
    requires
        sorted_by_index(columns@),
    ensures
        r.1 <= columns@.len(),
        forall|j: int| 0 <= j < r.1 ==> columns@[j].index < index,
        r.0 ==> r.1 < columns@.len() && columns@[r.1 as int].index == index,
        !r.0 ==> forall|j: int| r.1 <= j < columns@.len() ==> columns@[j].index > index,
{
    let mut i: usize = 0;
    while i < columns.len()
        invariant
            i <= columns@.len(),
            sorted_by_index(columns@),
            forall|j: int| 0 <= j < i ==> columns@[j].index < index,
        decreases columns@.len() - i,
    {
        let x = columns[i].index();
        if x == index {
            return (true, i);
        }
        if x > index {
            return (false, i);
        }
        i = i + 1;
    }
    (false, i)
}

} // verus!
