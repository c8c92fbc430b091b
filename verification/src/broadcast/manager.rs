//! The broadcast states of all proofs, by execution block hash and proof ID.
use vstd::prelude::*;
use crate::keyed::{key_seq, lemma_entry_in_map, lemma_map_len, MapKey, ProofKey, VecMap};
use crate::primitives::ExecutionBlockHash;
use crate::types::ProofId;
use super::status::{fresh_state, BroadcastStatus, ProofBroadcastState};

verus! {

/// The state recorded for `k` in `m`, or a fresh state if none is.
pub open spec fn state_or_fresh(m: Map<ProofKey, ProofBroadcastState>, k: ProofKey) -> ProofBroadcastState {
    if m.contains_key(k) {
        m[k]
    } else {
        fresh_state()
    }
}

/// `m` with a fresh state recorded for each of `keys` that has none.
pub open spec fn with_fresh_states(
    m: Map<ProofKey, ProofBroadcastState>,
    keys: Seq<(ExecutionBlockHash, ProofId)>,
) -> Map<ProofKey, ProofBroadcastState>
    decreases keys.len(),
{
    if keys.len() == 0 {
        m
    } else {
        let prev = with_fresh_states(m, keys.drop_last());
        let k = ProofKey(keys.last().0, keys.last().1);
        prev.insert(k, state_or_fresh(prev, k))
    }
}

/// Counts of recorded states by status, and the attempts summed over all.
#[derive(Debug, Default, Clone, Copy)]
pub struct BroadcastStatistics {
    pub total: usize,
    pub not_broadcast: usize,
    pub broadcasting: usize,
    pub broadcast: usize,
    pub failed: usize,
    pub total_attempts: u64,
}

/// The number of states in `s` with status `st`.
pub open spec fn count_status(s: Seq<ProofBroadcastState>, st: BroadcastStatus) -> nat
    decreases s.len(),
{
    if s.len() == 0 {
        0
    } else {
        count_status(s.drop_last(), st) + if s.last().status == st { 1nat } else { 0nat }
    }
}

/// The attempts of the states in `s`, summed.
pub open spec fn sum_attempts(s: Seq<ProofBroadcastState>) -> nat
    decreases s.len(),
{
    if s.len() == 0 {
        0
    } else {
        sum_attempts(s.drop_last()) + s.last().attempts as nat
    }
}

/// The states of a list of entries, in order.
pub open spec fn entry_states(s: Seq<(ProofKey, ProofBroadcastState)>) -> Seq<ProofBroadcastState> {
    s.map_values(|e: (ProofKey, ProofBroadcastState)| e.1)
}

/// Manages broadcast state for execution proofs
#[derive(Debug)]
pub struct ProofBroadcastManager {
    /// Map from (execution block hash, proof ID) to broadcast state
    broadcast_states: VecMap<ProofKey, ProofBroadcastState>,
}

impl View for ProofBroadcastManager {
    type V = Map<ProofKey, ProofBroadcastState>;

    closed spec fn view(&self) -> Map<ProofKey, ProofBroadcastState> {
        self.broadcast_states@
    }
}

impl ProofBroadcastManager {
    /// The recorded states are held consistently.
    pub closed spec fn wf(&self) -> bool {
        self.broadcast_states.wf()
    }

    /// The recorded states, in the order the statistics visit them.
    pub closed spec fn spec_states(&self) -> Seq<ProofBroadcastState> {
        entry_states(self.broadcast_states.spec_entries())
    }

    /// A manager with no recorded state.
    pub fn new() -> (r: Self)
        ensures
            r.wf(),
            r@ == Map::<ProofKey, ProofBroadcastState>::empty(),
    {
        ProofBroadcastManager { broadcast_states: VecMap::new() }
    }

    /// The state of a proof, recording a fresh one if none is recorded.
    pub fn get_or_create_state(&mut self, block_hash: ExecutionBlockHash, proof_id: ProofId) -> (r:
        ProofBroadcastState)
        requires
            old(self).wf(),
        ensures
            final(self).wf(),
            r == state_or_fresh(old(self)@, ProofKey(block_hash, proof_id)),
            final(self)@ == old(self)@.insert(ProofKey(block_hash, proof_id), r),
    {
        let key = ProofKey(block_hash, proof_id);
        match self.broadcast_states.get(&key) {
            Some(s) => {
                let s = *s;
                proof {
                    assert(old(self)@.insert(key, s) =~= old(self)@);
                }
                s
            },
            None => {
                let s = ProofBroadcastState::new();
                self.broadcast_states.insert(key, s);
                s
            },
        }
    }

    /// Records `state` for a proof.
    pub fn update_state(&mut self, block_hash: ExecutionBlockHash, proof_id: ProofId, state: ProofBroadcastState)
        requires
            old(self).wf(),
        ensures
            final(self).wf(),
            final(self)@ == old(self)@.insert(ProofKey(block_hash, proof_id), state),
    {
        self.broadcast_states.insert(ProofKey(block_hash, proof_id), state);
    }

    /// Records that a proof's broadcast starts now (one more attempt).
    /// Always succeeds.
    pub fn mark_broadcasting(&mut self, block_hash: ExecutionBlockHash, proof_id: ProofId) -> (r: bool)
        requires
            old(self).wf(),
            state_or_fresh(old(self)@, ProofKey(block_hash, proof_id)).attempts < u32::MAX,
        ensures
            r,
            final(self).wf(),
            final(self)@.dom() == old(self)@.dom().insert(ProofKey(block_hash, proof_id)),
            forall|k: ProofKey|
                k != ProofKey(block_hash, proof_id) && #[trigger] old(self)@.contains_key(k) ==> final(self)@[k] == old(self)@[k],
            state_or_fresh(old(self)@, ProofKey(block_hash, proof_id)).spec_broadcasting(
                final(self)@[ProofKey(block_hash, proof_id)],
            ),
    {
        let mut state = self.get_or_create_state(block_hash, proof_id);
        state.mark_broadcasting();
        self.update_state(block_hash, proof_id, state);
        true
    }

    /// Records that a proof was broadcast. Always succeeds.
    pub fn mark_broadcast_success(&mut self, block_hash: ExecutionBlockHash, proof_id: ProofId) -> (r: bool)
        requires
            old(self).wf(),
        ensures
            r,
            final(self).wf(),
            final(self)@ == old(self)@.insert(
                ProofKey(block_hash, proof_id),
                ProofBroadcastState {
                    status: BroadcastStatus::Broadcast,
                    ..state_or_fresh(old(self)@, ProofKey(block_hash, proof_id))
                },
            ),
    {
        let mut state = self.get_or_create_state(block_hash, proof_id);
        state.mark_broadcast_success();
        self.update_state(block_hash, proof_id, state);
        true
    }

    /// Records that a proof's broadcast failed. Always succeeds.
    pub fn mark_broadcast_failed(&mut self, block_hash: ExecutionBlockHash, proof_id: ProofId) -> (r: bool)
        requires
            old(self).wf(),
        ensures
            r,
            final(self).wf(),
            final(self)@ == old(self)@.insert(
                ProofKey(block_hash, proof_id),
                ProofBroadcastState {
                    status: BroadcastStatus::Failed,
                    ..state_or_fresh(old(self)@, ProofKey(block_hash, proof_id))
                },
            ),
    {
        let mut state = self.get_or_create_state(block_hash, proof_id);
        state.mark_broadcast_failed();
        self.update_state(block_hash, proof_id, state);
        true
    }

    /// The available proofs that are ready to be broadcast, in order; a fresh
    /// state is recorded for each available proof that had none.
    #[verifier::loop_isolation(false)]
    pub fn get_proofs_ready_for_broadcast(&mut self, available_proofs: &[(ExecutionBlockHash, ProofId)]) -> (r:
        Vec<(ExecutionBlockHash, ProofId)>)
        requires
            old(self).wf(),
        ensures
            final(self).wf(),
            final(self)@ == with_fresh_states(old(self)@, available_proofs@),
            r@ == available_proofs@.filter(
                |a: (ExecutionBlockHash, ProofId)| state_or_fresh(old(self)@, ProofKey(a.0, a.1)).spec_ready(),
            ),
    {
        let ghost m0 = self@;
        let ghost pred = |a: (ExecutionBlockHash, ProofId)| state_or_fresh(m0, ProofKey(a.0, a.1)).spec_ready();
        let mut out: Vec<(ExecutionBlockHash, ProofId)> = Vec::new();
        let mut i: usize = 0;
        while i < available_proofs.len()
            invariant
                i <= available_proofs@.len(),
                self.wf(),
                self@ == with_fresh_states(m0, available_proofs@.take(i as int)),
                forall|k: ProofKey| #[trigger] state_or_fresh(self@, k) == state_or_fresh(m0, k),
                out@ == available_proofs@.take(i as int).filter(pred),
            decreases available_proofs@.len() - i,
        {
            let a = available_proofs[i];
            let ghost prev = self@;
            let state = self.get_or_create_state(a.0, a.1);
            proof {
                assert forall|k: ProofKey| #[trigger] state_or_fresh(self@, k) == state_or_fresh(m0, k) by {
                    assert(state_or_fresh(self@, k) == state_or_fresh(prev, k));
                }
                assert(state == state_or_fresh(m0, ProofKey(a.0, a.1)));
            }
            if state.is_ready_to_broadcast() {
                out.push(a);
            }
            proof {
                let t1 = available_proofs@.take(i as int + 1);
                assert(t1.drop_last() =~= available_proofs@.take(i as int));
                assert(t1.last() == a);
                reveal(Seq::filter);
                assert(t1.len() > 0);
                assert(t1.filter(pred) == (if pred(t1.last()) {
                    t1.drop_last().filter(pred).push(t1.last())
                } else {
                    t1.drop_last().filter(pred)
                }));
                assert(out@ =~= t1.filter(pred));
            }
            i = i + 1;
        }
        proof {
            assert(available_proofs@.take(i as int) =~= available_proofs@);
        }
        out
    }

    /// The available proofs whose failed broadcast should be retried, in
    /// order; a fresh state is recorded for each available proof that had
    /// none.
    #[verifier::loop_isolation(false)]
    pub fn get_proofs_for_retry(
        &mut self,
        available_proofs: &[(ExecutionBlockHash, ProofId)],
        max_attempts: u32,
    ) -> (r: Vec<(ExecutionBlockHash, ProofId)>)
        requires
            old(self).wf(),
        ensures
            final(self).wf(),
            final(self)@ == with_fresh_states(old(self)@, available_proofs@),
            r@ == available_proofs@.filter(
                |a: (ExecutionBlockHash, ProofId)|
                    state_or_fresh(old(self)@, ProofKey(a.0, a.1)).spec_should_retry(max_attempts),
            ),
    {
        let ghost m0 = self@;
        let ghost pred = |a: (ExecutionBlockHash, ProofId)|
            state_or_fresh(m0, ProofKey(a.0, a.1)).spec_should_retry(max_attempts);
        let mut out: Vec<(ExecutionBlockHash, ProofId)> = Vec::new();
        let mut i: usize = 0;
        while i < available_proofs.len()
            invariant
                i <= available_proofs@.len(),
                self.wf(),
                self@ == with_fresh_states(m0, available_proofs@.take(i as int)),
                forall|k: ProofKey| #[trigger] state_or_fresh(self@, k) == state_or_fresh(m0, k),
                out@ == available_proofs@.take(i as int).filter(pred),
            decreases available_proofs@.len() - i,
        {
            let a = available_proofs[i];
            let ghost prev = self@;
            let state = self.get_or_create_state(a.0, a.1);
            proof {
                assert forall|k: ProofKey| #[trigger] state_or_fresh(self@, k) == state_or_fresh(m0, k) by {
                    assert(state_or_fresh(self@, k) == state_or_fresh(prev, k));
                }
                assert(state == state_or_fresh(m0, ProofKey(a.0, a.1)));
            }
            if state.should_retry_broadcast(max_attempts) {
                out.push(a);
            }
            proof {
                let t1 = available_proofs@.take(i as int + 1);
                assert(t1.drop_last() =~= available_proofs@.take(i as int));
                assert(t1.last() == a);
                reveal(Seq::filter);
                assert(t1.len() > 0);
                assert(t1.filter(pred) == (if pred(t1.last()) {
                    t1.drop_last().filter(pred).push(t1.last())
                } else {
                    t1.drop_last().filter(pred)
                }));
                assert(out@ =~= t1.filter(pred));
            }
            i = i + 1;
        }
        proof {
            assert(available_proofs@.take(i as int) =~= available_proofs@);
        }
        out
    }

    /// Forgets the states of proofs not in `current_proofs`.
    pub fn cleanup_old_states(&mut self, current_proofs: &[(ExecutionBlockHash, ProofId)])
        requires
            old(self).wf(),
        ensures
            final(self).wf(),
            final(self)@ == old(self)@.restrict(
                Set::new(|k: ProofKey| current_proofs@.contains((k.0, k.1))),
            ),
    {
        let ghost m0 = self@;
        let keys = self.broadcast_states.keys();
        let ghost ks = keys@;
        proof {
            lemma_keys_cover(self.broadcast_states);
        }
        let mut i: usize = 0;
        while i < keys.len()
            invariant
                i <= keys@.len(),
                keys@ == ks,
                ks.no_duplicates(),
                forall|k: ProofKey| m0.contains_key(k) <==> ks.contains(k),
                self.wf(),
                self@ == m0.restrict(
                    Set::new(
                        |k: ProofKey|
                            current_proofs@.contains((k.0, k.1)) || !ks.take(i as int).contains(k),
                    ),
                ),
            decreases keys@.len() - i,
        {
            let k = keys[i];
            let keep = contains_pair(current_proofs, k.0, k.1);
            if !keep {
                self.broadcast_states.remove(&k);
            }
            proof {
                let before = m0.restrict(
                    Set::new(
                        |x: ProofKey|
                            current_proofs@.contains((x.0, x.1)) || !ks.take(i as int).contains(x),
                    ),
                );
                let after = m0.restrict(
                    Set::new(
                        |x: ProofKey|
                            current_proofs@.contains((x.0, x.1)) || !ks.take(i as int + 1).contains(x),
                    ),
                );
                let t0 = ks.take(i as int);
                let t1 = ks.take(i as int + 1);
                assert forall|x: ProofKey| t1.contains(x) <==> (t0.contains(x) || x == k) by {
                    if t1.contains(x) {
                        let j = choose|j: int| 0 <= j < t1.len() && t1[j] == x;
                        if j < i {
                            assert(t0[j] == x);
                        }
                    }
                    if t0.contains(x) {
                        let j = choose|j: int| 0 <= j < t0.len() && t0[j] == x;
                        assert(t1[j] == x);
                    }
                    if x == k {
                        assert(t1[i as int] == x);
                    }
                }
                assert(!t0.contains(k)) by {
                    if t0.contains(k) {
                        let j = choose|j: int| 0 <= j < t0.len() && t0[j] == k;
                        assert(ks[j] == ks[i as int]);
                    }
                }
                if keep {
                    assert(self@ =~= after);
                } else {
                    assert(self@ =~= after);
                }
            }
            i = i + 1;
        }
        proof {
            assert(ks.take(i as int) =~= ks);
            assert(self@ =~= m0.restrict(Set::new(|k: ProofKey| current_proofs@.contains((k.0, k.1)))));
        }
    }

    /// Counts of recorded states by status, the number of states, and the
    /// attempts summed over all states.
    pub fn get_statistics(&self) -> (r: BroadcastStatistics)
        requires
            self.wf(),
            sum_attempts(self.spec_states()) <= u64::MAX,
        ensures
            r.total == self@.len(),
            r.not_broadcast == count_status(self.spec_states(), BroadcastStatus::NotBroadcast),
            r.broadcasting == count_status(self.spec_states(), BroadcastStatus::Broadcasting),
            r.broadcast == count_status(self.spec_states(), BroadcastStatus::Broadcast),
            r.failed == count_status(self.spec_states(), BroadcastStatus::Failed),
            r.total_attempts == sum_attempts(self.spec_states()),
    {
        let n = self.broadcast_states.len();
        let ghost all = self.spec_states();
        let mut stats = BroadcastStatistics {
            total: 0,
            not_broadcast: 0,
            broadcasting: 0,
            broadcast: 0,
            failed: 0,
            total_attempts: 0,
        };
        let mut i: usize = 0;
        while i < n
            invariant
                i <= n,
                n == all.len(),
                all == entry_states(self.broadcast_states.spec_entries()),
                sum_attempts(all) <= u64::MAX,
                stats.not_broadcast == count_status(all.take(i as int), BroadcastStatus::NotBroadcast),
                stats.broadcasting == count_status(all.take(i as int), BroadcastStatus::Broadcasting),
                stats.broadcast == count_status(all.take(i as int), BroadcastStatus::Broadcast),
                stats.failed == count_status(all.take(i as int), BroadcastStatus::Failed),
                stats.total_attempts == sum_attempts(all.take(i as int)),
            decreases n - i,
        {
            let e = self.broadcast_states.entry_at(i);
            let state = e.1;
            proof {
                assert(all.take(i as int + 1).drop_last() =~= all.take(i as int));
                assert(all.take(i as int + 1).last() == state);
                lemma_counts_bounded(all.take(i as int + 1));
                lemma_sum_prefix(all, i as int + 1);
            }
            match state.status {
                BroadcastStatus::NotBroadcast => stats.not_broadcast = stats.not_broadcast + 1,
                BroadcastStatus::Broadcasting => stats.broadcasting = stats.broadcasting + 1,
                BroadcastStatus::Broadcast => stats.broadcast = stats.broadcast + 1,
                BroadcastStatus::Failed => stats.failed = stats.failed + 1,
            }
            stats.total_attempts = stats.total_attempts + state.attempts as u64;
            i = i + 1;
        }
        proof {
            assert(all.take(i as int) =~= all);
        }
        stats.total = n;
        stats
    }
}

impl Default for ProofBroadcastManager {
    fn default() -> (r: Self)
        ensures
            r.wf(),
            r@ == Map::<ProofKey, ProofBroadcastState>::empty(),
    {
        Self::new()
    }
}

/// Whether `(hash, id)` occurs in `pairs`.
fn contains_pair(pairs: &[(ExecutionBlockHash, ProofId)], hash: ExecutionBlockHash, id: ProofId) -> (r: bool)
    ensures
        r == pairs@.contains((hash, id)),
{
    let mut i: usize = 0;
    while i < pairs.len()
        invariant
            i <= pairs@.len(),
            forall|j: int| 0 <= j < i ==> pairs@[j] != (hash, id),
        decreases pairs@.len() - i,
    {
        let p = pairs[i];
        if p.0.key_eq(&hash) && p.1.0 == id.0 {
            proof {
                assert(pairs@[i as int] == (hash, id));
            }
            return true;
        }
        i = i + 1;
    }
    false
}

/// The keys of a map's entries are distinct and are exactly its keys.
proof fn lemma_keys_cover(m: VecMap<ProofKey, ProofBroadcastState>)
    requires
        m.wf(),
    ensures
        key_seq(m.spec_entries()).no_duplicates(),
        forall|k: ProofKey| m@.contains_key(k) <==> key_seq(m.spec_entries()).contains(k),
{
    let s = m.spec_entries();
    let ks = key_seq(s);
    assert forall|i: int, j: int| 0 <= i < ks.len() && 0 <= j < ks.len() && i != j implies ks[i] != ks[j] by {
        assert(ks[i] == s[i].0);
        assert(ks[j] == s[j].0);
    }
    assert forall|k: ProofKey| m@.contains_key(k) <==> ks.contains(k) by {
        if m@.contains_key(k) {
            let i = choose|i: int| 0 <= i < s.len() && (#[trigger] s[i]).0 == k;
            assert(ks[i] == k);
        }
        if ks.contains(k) {
            let i = choose|i: int| 0 <= i < ks.len() && ks[i] == k;
            lemma_entry_in_map(s, i);
        }
    }
}

/// Each status count is at most the number of states.
proof fn lemma_counts_bounded(s: Seq<ProofBroadcastState>)
    ensures
        count_status(s, BroadcastStatus::NotBroadcast) <= s.len(),
        count_status(s, BroadcastStatus::Broadcasting) <= s.len(),
        count_status(s, BroadcastStatus::Broadcast) <= s.len(),
        count_status(s, BroadcastStatus::Failed) <= s.len(),
    decreases s.len(),
{
    if s.len() > 0 {
        lemma_counts_bounded(s.drop_last());
    }
}

/// The attempts of a prefix sum to at most those of the whole.
proof fn lemma_sum_prefix(s: Seq<ProofBroadcastState>, n: int)
    requires
        0 <= n <= s.len(),
    ensures
        sum_attempts(s.take(n)) <= sum_attempts(s),
    decreases s.len(),
{
    if n < s.len() {
        assert(s.drop_last().take(n) =~= s.take(n));
        lemma_sum_prefix(s.drop_last(), n);
    } else {
        assert(s.take(n) =~= s);
    }
}

} // verus!
