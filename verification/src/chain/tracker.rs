//! Proven chain tracker: the proven blocks by beacon root, the beacon roots
//! proven for each execution block hash, and the proven head and finalized
//! checkpoint.
use vstd::prelude::*;
use crate::clock::instant_now;
use crate::keyed::{lemma_entry_in_map, lemma_map_len, MapKey, VecMap};
use crate::primitives::{ExecutionBlockHash, Hash256};
use super::state::{ProvenBlockInfo, ProvenChainState};

verus! {

/// The beacon roots recorded for `exec` in `m`, or none.
pub open spec fn roots_of(m: Map<Hash256, Seq<Hash256>>, exec: Hash256) -> Seq<Hash256> {
    if m.contains_key(exec) {
        m[exec]
    } else {
        Seq::empty()
    }
}

/// Whether a root differs from `root`.
pub open spec fn other_than(root: Hash256) -> spec_fn(Hash256) -> bool {
    |x: Hash256| x != root
}

/// `m` with `root` taken out of the list of `exec`; an emptied list is
/// removed.
pub open spec fn drop_root(m: Map<Hash256, Seq<Hash256>>, exec: Hash256, root: Hash256) -> Map<
    Hash256,
    Seq<Hash256>,
> {
    if m.contains_key(exec) {
        let l = m[exec].filter(other_than(root));
        if l.len() == 0 {
            m.remove(exec)
        } else {
            m.insert(exec, l)
        }
    } else {
        m
    }
}

/// `m` with each `(root, exec)` of `pairs` dropped in turn by [`drop_root`].
pub open spec fn drop_roots(m: Map<Hash256, Seq<Hash256>>, pairs: Seq<(Hash256, Hash256)>) -> Map<
    Hash256,
    Seq<Hash256>,
>
    decreases pairs.len(),
{
    if pairs.len() == 0 {
        m
    } else {
        drop_root(drop_roots(m, pairs.drop_last()), pairs.last().1, pairs.last().0)
    }
}

/// The `(beacon root, execution hash)` of each entry whose slot is below
/// `min_slot`, in order.
pub open spec fn pruned_pairs(s: Seq<(Hash256, ProvenBlockInfo)>, min_slot: u64) -> Seq<
    (Hash256, Hash256),
>
    decreases s.len(),
{
    if s.len() == 0 {
        Seq::empty()
    } else {
        let p = pruned_pairs(s.drop_last(), min_slot);
        if s.last().1.slot < min_slot {
            p.push((s.last().0, s.last().1.execution_block_hash))
        } else {
            p
        }
    }
}

/// Some of the first `j` pairs has root `x`.
pub open spec fn among_roots(rp: Seq<(Hash256, Hash256)>, j: int, x: Hash256) -> bool {
    exists|t: int| 0 <= t < j && (#[trigger] rp[t]).0 == x
}

/// Some entry has key `x` and a slot below `min_slot`.
pub open spec fn old_block(s: Seq<(Hash256, ProvenBlockInfo)>, min_slot: u64, x: Hash256) -> bool {
    exists|i: int| 0 <= i < s.len() && (#[trigger] s[i]).0 == x && s[i].1.slot < min_slot
}

/// Tracks the proven canonical chain
pub struct ProvenChainTracker {
    /// Maps beacon block root to proven block information
    proven_blocks: VecMap<Hash256, ProvenBlockInfo>,
    /// Current state of the proven chain
    state: ProvenChainState,
    /// Reverse mapping: execution block hash -> beacon block roots
    execution_to_beacon: VecMap<Hash256, Vec<Hash256>>,
}

impl ProvenChainTracker {
    /// The maps are held consistently.
    pub closed spec fn wf(&self) -> bool {
        self.proven_blocks.wf() && self.execution_to_beacon.wf()
    }

    /// The proven blocks, by beacon root.
    pub closed spec fn spec_blocks(&self) -> Map<Hash256, ProvenBlockInfo> {
        self.proven_blocks@
    }

    /// The beacon roots recorded for each execution hash, in the order they
    /// were recorded.
    pub closed spec fn spec_exec(&self) -> Map<Hash256, Seq<Hash256>> {
        self.execution_to_beacon@.map_values(|v: Vec<Hash256>| v@)
    }

    /// The proven chain state.
    pub closed spec fn spec_state(&self) -> ProvenChainState {
        self.state
    }

    /// The proven blocks in storage order.
    pub closed spec fn spec_block_entries(&self) -> Seq<(Hash256, ProvenBlockInfo)> {
        self.proven_blocks.spec_entries()
    }

    /// A tracker with no proven block and the initial state.
    pub fn new() -> (r: Self)
        ensures
            r.wf(),
            r.spec_blocks() == Map::<Hash256, ProvenBlockInfo>::empty(),
            r.spec_exec() == Map::<Hash256, Seq<Hash256>>::empty(),
            r.spec_state().is_initial(),
    {
        let r = ProvenChainTracker {
            proven_blocks: VecMap::new(),
            state: ProvenChainState::default(),
            execution_to_beacon: VecMap::new(),
        };
        proof {
            assert(r.spec_exec() =~= Map::<Hash256, Seq<Hash256>>::empty());
        }
        r
    }

    /// Registers a block as proven under its beacon root, and appends the
    /// root to the roots of its execution hash.
    pub fn mark_block_proven(&mut self, block_info: ProvenBlockInfo)
        requires
            old(self).wf(),
        ensures
            final(self).wf(),
            final(self).spec_blocks() == old(self).spec_blocks().insert(
                block_info.beacon_block_root,
                block_info,
            ),
            final(self).spec_exec() == old(self).spec_exec().insert(
                block_info.execution_block_hash,
                roots_of(old(self).spec_exec(), block_info.execution_block_hash).push(
                    block_info.beacon_block_root,
                ),
            ),
            final(self).spec_state() == old(self).spec_state(),
    {
        let beacon_root = block_info.beacon_block_root;
        let exec_hash = block_info.execution_block_hash;
        self.proven_blocks.insert(beacon_root, block_info);
        let mut roots: Vec<Hash256> = match self.execution_to_beacon.get(&exec_hash) {
            Some(v) => {
                let c = v.clone();
                proof {
                    assert(c@ =~= v@);
                }
                c
            },
            None => Vec::new(),
        };
        roots.push(beacon_root);
        let ghost before = self.execution_to_beacon@;
        self.execution_to_beacon.insert(exec_hash, roots);
        proof {
            assert(self.spec_exec() =~= old(self).spec_exec().insert(
                exec_hash,
                roots_of(old(self).spec_exec(), exec_hash).push(beacon_root),
            ));
        }
    }

    /// Whether a beacon block is proven.
    pub fn is_block_proven(&self, beacon_block_root: &Hash256) -> (r: bool)
        requires
            self.wf(),
        ensures
            r == self.spec_blocks().contains_key(*beacon_block_root),
    {
        self.proven_blocks.contains_key(beacon_block_root)
    }

    /// The information of a proven block.
    pub fn get_proven_block(&self, beacon_block_root: &Hash256) -> (r: Option<ProvenBlockInfo>)
        requires
            self.wf(),
        ensures
            r == (if self.spec_blocks().contains_key(*beacon_block_root) {
                Some(self.spec_blocks()[*beacon_block_root])
            } else {
                None
            }),
    {
        match self.proven_blocks.get(beacon_block_root) {
            Some(info) => Some(*info),
            None => None,
        }
    }

    /// The beacon roots recorded for an execution hash (none if none are).
    pub fn get_beacon_blocks_for_execution(&self, exec_hash: &ExecutionBlockHash) -> (r: Vec<Hash256>)
        requires
            self.wf(),
        ensures
            r@ == roots_of(self.spec_exec(), *exec_hash),
    {
        match self.execution_to_beacon.get(exec_hash) {
            Some(v) => {
                let c = v.clone();
                proof {
                    assert(c@ =~= v@);
                }
                c
            },
            None => Vec::new(),
        }
    }

    /// Records the proven head and finalized checkpoint, the number of proven
    /// blocks, and the time of the update.
    pub fn update_state(&mut self, proven_head: Option<(Hash256, u64)>, proven_finalized: Option<(Hash256, u64)>)
        requires
            old(self).wf(),
        ensures
            final(self).wf(),
            final(self).spec_blocks() == old(self).spec_blocks(),
            final(self).spec_exec() == old(self).spec_exec(),
            final(self).spec_state().proven_head == proven_head,
            final(self).spec_state().proven_finalized == proven_finalized,
            final(self).spec_state().chain_length == old(self).spec_blocks().len(),
            final(self).spec_state().last_update is Some,
    {
        self.state.proven_head = proven_head;
        self.state.proven_finalized = proven_finalized;
        self.state.chain_length = self.proven_blocks.len();
        self.state.last_update = Some(instant_now());
    }

    /// The current proven chain state.
    pub fn get_state(&self) -> (r: ProvenChainState)
        ensures
            r == self.spec_state(),
    {
        self.state.copy()
    }

    /// All proven blocks, ordered by slot (blocks of one slot in storage
    /// order).
    pub fn get_proven_chain(&self) -> (r: Vec<ProvenBlockInfo>)
        requires
            self.wf(),
        ensures
            r@.len() == self.spec_blocks().len(),
            forall|i: int, j: int| 0 <= i <= j < r@.len() ==> r@[i].slot <= r@[j].slot,
            forall|x: ProvenBlockInfo|
                r@.contains(x) <==> exists|k: Hash256|
                    #[trigger] self.spec_blocks().contains_key(k) && self.spec_blocks()[k] == x,
    {
        let n = self.proven_blocks.len();
        let ghost s = self.proven_blocks.spec_entries();
        let mut out: Vec<ProvenBlockInfo> = Vec::new();
        let mut i: usize = 0;
        while i < n
            invariant
                i <= n,
                n == s.len(),
                s == self.proven_blocks.spec_entries(),
                out@.len() == i,
                forall|a: int, b: int| 0 <= a <= b < out@.len() ==> out@[a].slot <= out@[b].slot,
                forall|x: ProvenBlockInfo|
                    out@.contains(x) <==> exists|j: int| 0 <= j < i && (#[trigger] s[j]).1 == x,
            decreases n - i,
        {
            let info = self.proven_blocks.entry_at(i).1;
            let mut pos: usize = 0;
            while pos < out.len() && out[pos].slot <= info.slot
                invariant
                    pos <= out@.len(),
                    forall|a: int| 0 <= a < pos ==> out@[a].slot <= info.slot,
                decreases out@.len() - pos,
            {
                pos = pos + 1;
            }
            let ghost before = out@;
            out.insert(pos, info);
            proof {
                assert(out@ == before.insert(pos as int, info));
                assert forall|a: int, b: int| 0 <= a <= b < out@.len() implies out@[a].slot <= out@[b].slot by {
                    if b < pos {
                    } else if b == pos {
                        if a < pos {
                        }
                    } else if a < pos {
                        assert(out@[b] == before[b - 1]);
                        if pos < before.len() {
                            assert(before[pos as int].slot > info.slot);
                            assert(before[a].slot <= before[pos as int].slot);
                            assert(before[pos as int].slot <= before[b - 1].slot);
                        }
                    } else if a == pos {
                        assert(out@[b] == before[b - 1]);
                        assert(before[pos as int].slot > info.slot);
                        assert(before[pos as int].slot <= before[b - 1].slot);
                    } else {
                        assert(out@[a] == before[a - 1]);
                        assert(out@[b] == before[b - 1]);
                    }
                }
                assert forall|x: ProvenBlockInfo| out@.contains(x) <==> exists|j: int|
                    0 <= j < i + 1 && (#[trigger] s[j]).1 == x by {
                    if out@.contains(x) {
                        let w = choose|w: int| 0 <= w < out@.len() && out@[w] == x;
                        if w == pos {
                            assert(s[i as int].1 == x);
                        } else if w < pos {
                            assert(before[w] == x);
                            assert(before.contains(x));
                        } else {
                            assert(before[w - 1] == x);
                            assert(before.contains(x));
                        }
                    }
                    if exists|j: int| 0 <= j < i + 1 && (#[trigger] s[j]).1 == x {
                        let j = choose|j: int| 0 <= j < i + 1 && (#[trigger] s[j]).1 == x;
                        if j == i {
                            assert(out@[pos as int] == x);
                        } else {
                            assert(before.contains(x));
                            let w = choose|w: int| 0 <= w < before.len() && before[w] == x;
                            if w < pos {
                                assert(out@[w] == x);
                            } else {
                                assert(out@[w + 1] == x);
                            }
                        }
                    }
                }
            }
            i = i + 1;
        }
        proof {
            assert forall|x: ProvenBlockInfo| out@.contains(x) <==> exists|k: Hash256|
                #[trigger] self.spec_blocks().contains_key(k) && self.spec_blocks()[k] == x by {
                if out@.contains(x) {
                    let j = choose|j: int| 0 <= j < i && (#[trigger] s[j]).1 == x;
                    lemma_entry_in_map(s, j);
                    assert(self.spec_blocks().contains_key(s[j].0));
                }
                if exists|k: Hash256| #[trigger] self.spec_blocks().contains_key(k) && self.spec_blocks()[k] == x {
                    let k = choose|k: Hash256| #[trigger] self.spec_blocks().contains_key(k) && self.spec_blocks()[k] == x;
                    let j = choose|j: int| 0 <= j < s.len() && (#[trigger] s[j]).0 == k;
                    lemma_entry_in_map(s, j);
                    assert(s[j].1 == x);
                }
            }
        }
        out
    }

    /// Forgets every proven block and mapping, and resets the state.
    pub fn clear(&mut self)
        ensures
            final(self).wf(),
            final(self).spec_blocks() == Map::<Hash256, ProvenBlockInfo>::empty(),
            final(self).spec_exec() == Map::<Hash256, Seq<Hash256>>::empty(),
            final(self).spec_state().is_initial(),
    {
        self.proven_blocks.clear();
        self.execution_to_beacon.clear();
        self.state = ProvenChainState::default();
        proof {
            assert(self.spec_exec() =~= Map::<Hash256, Seq<Hash256>>::empty());
        }
    }

    /// Removes the blocks whose slot is below `min_slot`, and takes each out of
    /// the roots of its execution hash (see [`drop_roots`]); returns how many
    /// blocks were removed.
    pub fn prune_old_blocks(&mut self, min_slot: u64) -> (r: usize)
        requires
            old(self).wf(),
        ensures
            final(self).wf(),
            final(self).spec_blocks() == old(self).spec_blocks().restrict(
                Set::new(|k: Hash256| old(self).spec_blocks()[k].slot >= min_slot),
            ),
            final(self).spec_exec() == drop_roots(
                old(self).spec_exec(),
                pruned_pairs(old(self).spec_block_entries(), min_slot),
            ),
            r == old(self).spec_blocks().len() - final(self).spec_blocks().len(),
            final(self).spec_state() == old(self).spec_state(),
    {
        let initial_len = self.proven_blocks.len();
        let ghost s = self.proven_blocks.spec_entries();
        let ghost blocks0 = self.proven_blocks@;
        let ghost exec0 = self.spec_exec();
        let mut to_remove: Vec<(Hash256, Hash256)> = Vec::new();
        let mut i: usize = 0;
        while i < initial_len
            invariant
                i <= initial_len,
                initial_len == s.len(),
                s == self.proven_blocks.spec_entries(),
                to_remove@ == pruned_pairs(s.take(i as int), min_slot),
            decreases initial_len - i,
        {
            let e = self.proven_blocks.entry_at(i);
            proof {
                assert(s.take(i as int + 1).drop_last() =~= s.take(i as int));
                assert(s.take(i as int + 1).last() == *e);
            }
            if e.1.slot < min_slot {
                to_remove.push((e.0, e.1.execution_block_hash));
            }
            i = i + 1;
        }
        proof {
            assert(s.take(i as int) =~= s);
            lemma_pruned_roots(s, min_slot);
        }
        let ghost rp = to_remove@;
        let mut j: usize = 0;
        while j < to_remove.len()
            invariant
                j <= to_remove@.len(),
                rp == to_remove@,
                self.wf(),
                self.proven_blocks@ == blocks0.remove_keys(
                    Set::new(|x: Hash256| among_roots(rp, j as int, x)),
                ),
                self.spec_exec() == drop_roots(exec0, rp.take(j as int)),
                self.state == old(self).state,
            decreases to_remove@.len() - j,
        {
            let (root, exec_hash) = to_remove[j];
            let ghost blocks_before = self.proven_blocks@;
            let ghost exec_before = self.spec_exec();
            self.proven_blocks.remove(&root);
            proof {
                assert(self.proven_blocks@ =~= blocks0.remove_keys(
                    Set::new(|x: Hash256| among_roots(rp, j + 1, x)),
                )) by {
                    assert forall|x: Hash256| #[trigger] among_roots(rp, j + 1, x) <==> (among_roots(rp, j as int, x) || x == root) by {
                        if x == root {
                            assert(rp[j as int].0 == x);
                        }
                        if among_roots(rp, j + 1, x) {
                            let t = choose|t: int| 0 <= t < j + 1 && (#[trigger] rp[t]).0 == x;
                        }
                    }
                }
            }
            let existing: Option<Vec<Hash256>> = match self.execution_to_beacon.get(&exec_hash) {
                Some(v) => Some(without_root(v, root)),
                None => None,
            };
            match existing {
                Some(filtered) => {
                    if filtered.len() == 0 {
                        self.execution_to_beacon.remove(&exec_hash);
                    } else {
                        self.execution_to_beacon.insert(exec_hash, filtered);
                    }
                },
                None => {},
            }
            proof {
                let t1 = rp.take(j as int + 1);
                assert(t1.drop_last() =~= rp.take(j as int));
                assert(t1.last() == (root, exec_hash));
                assert(self.spec_exec() =~= drop_root(exec_before, exec_hash, root));
            }
            j = j + 1;
        }
        proof {
            assert(rp.take(j as int) =~= rp);
            assert(self.proven_blocks@ =~= blocks0.restrict(
                Set::new(|k: Hash256| blocks0[k].slot >= min_slot),
            )) by {
                assert forall|k: Hash256| #[trigger] blocks0.contains_key(k) implies (among_roots(rp, rp.len() as int, k)
                    <==> blocks0[k].slot < min_slot) by {
                    let w = choose|w: int| 0 <= w < s.len() && (#[trigger] s[w]).0 == k;
                    lemma_entry_in_map(s, w);
                    assert(among_roots(rp, rp.len() as int, k) <==> old_block(s, min_slot, k));
                    if old_block(s, min_slot, k) {
                        let i = choose|i: int| 0 <= i < s.len() && (#[trigger] s[i]).0 == k && s[i].1.slot < min_slot;
                        assert(i == w);
                    }
                }
            }
            lemma_map_len(self.proven_blocks.spec_entries());
            assert(self.proven_blocks@.dom().subset_of(blocks0.dom()));
            vstd::set_lib::lemma_len_subset(self.proven_blocks@.dom(), blocks0.dom());
        }
        let final_len = self.proven_blocks.len();
        initial_len - final_len
    }
}

impl Default for ProvenChainTracker {
    fn default() -> (r: Self)
        ensures
            r.wf(),
            r.spec_blocks() == Map::<Hash256, ProvenBlockInfo>::empty(),
            r.spec_exec() == Map::<Hash256, Seq<Hash256>>::empty(),
            r.spec_state().is_initial(),
    {
        Self::new()
    }
}

/// The roots of `v` other than `root`, in order.
fn without_root(v: &Vec<Hash256>, root: Hash256) -> (r: Vec<Hash256>)
    ensures
        r@ == v@.filter(other_than(root)),
{
    let mut out: Vec<Hash256> = Vec::new();
    let mut i: usize = 0;
    while i < v.len()
        invariant
            i <= v@.len(),
            out@ == v@.take(i as int).filter(other_than(root)),
        decreases v@.len() - i,
    {
        let x = v[i];
        if !x.key_eq(&root) {
            out.push(x);
        }
        proof {
            let t1 = v@.take(i as int + 1);
            assert(t1.drop_last() =~= v@.take(i as int));
            assert(t1.last() == x);
            reveal(Seq::filter);
            assert(out@ =~= t1.filter(other_than(root)));
        }
        i = i + 1;
    }
    proof {
        assert(v@.take(i as int) =~= v@);
    }
    out
}

/// The roots of [`pruned_pairs`] are exactly the keys of the entries whose
/// slot is below `min_slot`.
proof fn lemma_pruned_roots(s: Seq<(Hash256, ProvenBlockInfo)>, min_slot: u64)
    ensures
        forall|x: Hash256|
            #[trigger] among_roots(pruned_pairs(s, min_slot), pruned_pairs(s, min_slot).len() as int, x)
                <==> old_block(s, min_slot, x),
    decreases s.len(),
{
    if s.len() > 0 {
        let d = s.drop_last();
        lemma_pruned_roots(d, min_slot);
        let p = pruned_pairs(d, min_slot);
        let q = pruned_pairs(s, min_slot);
        assert forall|x: Hash256| #[trigger] among_roots(q, q.len() as int, x) <==> old_block(s, min_slot, x) by {
            assert(among_roots(p, p.len() as int, x) <==> old_block(d, min_slot, x));
            if among_roots(q, q.len() as int, x) {
                let t = choose|t: int| 0 <= t < q.len() && (#[trigger] q[t]).0 == x;
                if t < p.len() {
                    assert(q[t] == p[t]);
                    assert(among_roots(p, p.len() as int, x));
                    let i = choose|i: int| 0 <= i < d.len() && (#[trigger] d[i]).0 == x && d[i].1.slot < min_slot;
                    assert(s[i] == d[i]);
                } else {
                    assert(s[s.len() - 1].0 == x);
                }
            }
            if old_block(s, min_slot, x) {
                let i = choose|i: int| 0 <= i < s.len() && (#[trigger] s[i]).0 == x && s[i].1.slot < min_slot;
                if i < d.len() {
                    assert(d[i] == s[i]);
                    assert(old_block(d, min_slot, x));
                    let t = choose|t: int| 0 <= t < p.len() && (#[trigger] p[t]).0 == x;
                    assert(q[t] == p[t]);
                } else {
                    assert(q[p.len() as int].0 == x);
                }
            }
        }
    }
}

/// Pruning at `min_slot` keeps exactly the blocks at or after that slot,
/// unchanged.
pub proof fn pruning_keeps_recent_blocks(
    before: Map<Hash256, ProvenBlockInfo>,
    min_slot: u64,
    after: Map<Hash256, ProvenBlockInfo>,
    root: Hash256,
)
    requires
        after == before.restrict(Set::new(|k: Hash256| before[k].slot >= min_slot)),
    ensures
        after.contains_key(root) <==> (before.contains_key(root) && before[root].slot >= min_slot),
        after.contains_key(root) ==> after[root] == before[root],
{
}

} // verus!
