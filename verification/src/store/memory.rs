//! In-memory proof storage, keyed by execution block hash and proof ID, that
//! evicts the oldest proof when full.
use vstd::prelude::*;
use crate::error::Error;
use crate::keyed::{
    lemma_entry_in_map, lemma_map_len, seq_to_map, unique_keys, MapKey, ProofKey, VecMap, VecSet,
};
use crate::primitives::{ExecutionBlockHash, Hash256};
use crate::text::{decimal, push_decimal};
use crate::types::{ExecutionPayloadProof, ProofId};

verus! {

/// The reason a proof is refused for storage, if it is: empty proof data,
/// or an unsupported version.
pub open spec fn refusal(p: ExecutionPayloadProof) -> Option<Seq<char>> {
    if p.proof_data@.len() == 0 {
        Some("Empty proof data"@)
    } else if p.version != 1 {
        Some("Unsupported version: "@ + decimal(p.version as nat))
    } else {
        None
    }
}

/// `k` holds the oldest proof of `m`: no stored proof has an earlier
/// timestamp.
pub open spec fn is_oldest(m: Map<ProofKey, ExecutionPayloadProof>, k: ProofKey) -> bool {
    &&& m.contains_key(k)
    &&& forall|j: ProofKey| #[trigger] m.contains_key(j) ==> m[k].timestamp <= m[j].timestamp
}

/// The keys of the proofs for `block_hash`.
pub open spec fn keys_for(m: Map<ProofKey, ExecutionPayloadProof>, block_hash: Hash256) -> Set<ProofKey> {
    m.dom().filter(|k: ProofKey| k.0 == block_hash)
}

/// The execution block hashes with at least one proof.
pub open spec fn payloads(m: Map<ProofKey, ExecutionPayloadProof>) -> Set<Hash256> {
    m.dom().map(|k: ProofKey| k.0)
}

/// The type name of a proof: its proof ID's identifier, `_v` and its
/// version.
pub open spec fn proof_kind(p: ExecutionPayloadProof) -> Seq<char> {
    p.proof_id.spec_identifier() + "_v"@ + decimal(p.version as nat)
}

/// Keeps the stored proofs of type `name`.
pub open spec fn of_type(name: Seq<char>) -> spec_fn((ProofKey, ExecutionPayloadProof)) -> bool {
    |e: (ProofKey, ExecutionPayloadProof)| proof_kind(e.1) == name
}

/// The number of proofs of type `name` among `entries`.
pub open spec fn type_count(entries: Seq<(ProofKey, ExecutionPayloadProof)>, name: Seq<char>) -> nat {
    entries.filter(of_type(name)).len()
}

/// Every proof among `entries` has its kind named in `by_type`.
pub open spec fn names_every_kind(
    by_type: Seq<(String, usize)>,
    entries: Seq<(ProofKey, ExecutionPayloadProof)>,
) -> bool {
    forall|b: int|
        0 <= b < entries.len() ==> kind_names(by_type).contains(proof_kind(#[trigger] entries[b].1))
}

/// The names listed in `by_type`, in order.
pub open spec fn kind_names(by_type: Seq<(String, usize)>) -> Seq<Seq<char>> {
    by_type.map_values(|p: (String, usize)| p.0@)
}

/// Counts about a proof store. The share of the capacity in use is
/// `total_proofs` over `capacity`.
#[derive(Debug)]
pub struct ProofStoreMetrics {
    /// Total number of proofs stored
    pub total_proofs: usize,
    /// Number of unique execution payloads with proofs
    pub unique_payloads: usize,
    /// Number of proofs by type
    pub proofs_by_type: Vec<(String, usize)>,
    /// Number of proofs the store holds at most
    pub capacity: usize,
    /// Number of evictions performed
    pub evictions: u64,
    /// Number of successful stores
    pub successful_stores: u64,
    /// Number of failed stores
    pub failed_stores: u64,
}

/// In-memory proof store that evicts its oldest proof when full.
pub struct MemoryProofStore {
    proofs: VecMap<ProofKey, ExecutionPayloadProof>,
    max_proofs: usize,
    evictions: u64,
    successful_stores: u64,
    failed_stores: u64,
}

/// The store as contracts see it.
pub struct StoreView {
    pub proofs: Map<ProofKey, ExecutionPayloadProof>,
    pub max_proofs: nat,
    pub evictions: u64,
    pub successful_stores: u64,
    pub failed_stores: u64,
}

impl View for MemoryProofStore {
    type V = StoreView;

    closed spec fn view(&self) -> StoreView {
        StoreView {
            proofs: self.proofs@,
            max_proofs: self.max_proofs as nat,
            evictions: self.evictions,
            successful_stores: self.successful_stores,
            failed_stores: self.failed_stores,
        }
    }
}

impl MemoryProofStore {
    /// The proof list has distinct keys.
    pub closed spec fn wf(&self) -> bool {
        self.proofs.wf() && self.proofs@.dom().finite()
    }

    /// A store for at most `max_proofs` proofs, empty, with every counter at
    /// zero.
    pub fn new(max_proofs: usize) -> (r: Self)
        ensures
            r.wf(),
            r@.proofs == Map::<ProofKey, ExecutionPayloadProof>::empty(),
            r@.max_proofs == max_proofs,
            r@.evictions == 0,
            r@.successful_stores == 0,
            r@.failed_stores == 0,
    {
        MemoryProofStore {
            proofs: VecMap::new(),
            max_proofs,
            evictions: 0,
            successful_stores: 0,
            failed_stores: 0,
        }
    }

    /// Checks a proof before storage (see [`refusal`]): a refused proof gives
    /// `InvalidProof` with its block hash, its proof ID and the reason.
    fn validate_proof(proof: &ExecutionPayloadProof) -> (r: Result<(), Error>)
        ensures
            match refusal(*proof) {
                None => r is Ok,
                Some(reason) => r matches Err(Error::InvalidProof { block_hash, subnet_id, reason: m })
                    && block_hash == proof.block_hash && subnet_id == proof.proof_id.0 && m@
                    == reason,
            },
    {
        if proof.proof_data.len() == 0 {
            return Err(
                Error::InvalidProof {
                    block_hash: proof.block_hash,
                    subnet_id: proof.proof_id.id(),
                    reason: String::from_str("Empty proof data"),
                },
            );
        }
        if !proof.is_version_supported() {
            let mut reason = String::from_str("Unsupported version: ");
            push_decimal(&mut reason, proof.version as u64);
            return Err(
                Error::InvalidProof {
                    block_hash: proof.block_hash,
                    subnet_id: proof.proof_id.id(),
                    reason,
                },
            );
        }
        Ok(())
    }

    /// When full, evicts the oldest proof (the first of equally old ones in
    /// storage order) and counts the eviction.
    fn evict_if_needed(&mut self)
        requires
            old(self).wf(),
        ensures
            final(self).wf(),
            final(self)@.max_proofs == old(self)@.max_proofs,
            final(self)@.successful_stores == old(self)@.successful_stores,
            final(self)@.failed_stores == old(self)@.failed_stores,
            old(self)@.proofs.len() < old(self)@.max_proofs || old(self)@.proofs.len() == 0 ==> final(self)@ == old(self)@,
            old(self)@.proofs.len() >= old(self)@.max_proofs && old(self)@.proofs.len() > 0 ==> exists|
                k: ProofKey,
            |
                #[trigger] is_oldest(old(self)@.proofs, k) && final(self)@.proofs == old(self)@.proofs.remove(k) && final(self)@.evictions == old(self)@.evictions.wrapping_add(
                    1,
                ),
    {
        let len = self.proofs.len();
        if len >= self.max_proofs && len > 0 {
            let ghost entries = self.proofs.spec_entries();
            let mut best: usize = 0;
            let mut i: usize = 1;
            while i < len
                invariant
                    self.proofs.spec_entries() == entries,
                    entries.len() == len,
                    0 < i <= len,
                    best < i,
                    forall|j: int|
                        0 <= j < i ==> entries[best as int].1.timestamp <= (
                        #[trigger] entries[j]).1.timestamp,
                decreases len - i,
            {
                if self.proofs.entry_at(i).1.timestamp < self.proofs.entry_at(best).1.timestamp {
                    best = i;
                }
                i = i + 1;
            }
            let oldest_key = self.proofs.entry_at(best).0;
            proof {
                lemma_entry_in_map(entries, best as int);
                assert forall|j: ProofKey| #[trigger] self.proofs@.contains_key(j) implies self.proofs@[oldest_key].timestamp
                    <= self.proofs@[j].timestamp by {
                    let a = choose|a: int| 0 <= a < entries.len() && (#[trigger] entries[a]).0 == j;
                    lemma_entry_in_map(entries, a);
                }
                assert(is_oldest(old(self)@.proofs, oldest_key));
            }
            self.proofs.remove(&oldest_key);
            self.evictions = self.evictions.wrapping_add(1);
        }
    }

    /// Stores a proof after checking it (see [`refusal`]); a refused proof
    /// changes nothing.
    pub fn store_proof(&mut self, proof: ExecutionPayloadProof) -> (r: Result<(), Error>)
        requires
            old(self).wf(),
        ensures
            final(self).wf(),
            refusal(proof) is Some ==> final(self)@ == old(self)@ && (r matches Err(
                Error::InvalidProof { block_hash, subnet_id, reason },
            ) && block_hash == proof.block_hash && subnet_id == proof.proof_id.0 && reason@
                == refusal(proof)->0),
            refusal(proof) is None ==> stored(old(self)@, proof, final(self)@) && r is Ok,
    {
        match Self::validate_proof(&proof) {
            Ok(_) => {},
            Err(e) => {
                return Err(e);
            },
        }
        self.store_validated_proof(proof)
    }

    /// Stores a proof taken as valid: when full, the oldest proof is evicted
    /// first (see [`stored`]); the store is counted as successful.
    pub fn store_validated_proof(&mut self, proof: ExecutionPayloadProof) -> (r: Result<(), Error>)
        requires
            old(self).wf(),
        ensures
            final(self).wf(),
            stored(old(self)@, proof, final(self)@),
            r is Ok,
    {
        let ghost before = self@;
        self.evict_if_needed();
        let ghost mid = self@;
        let key = ProofKey(proof.block_hash, proof.proof_id);
        self.proofs.insert(key, proof);
        self.successful_stores = self.successful_stores.wrapping_add(1);
        proof {
            if before.proofs.len() >= before.max_proofs && before.proofs.len() > 0 {
                let k = choose|k: ProofKey|
                    #[trigger] is_oldest(before.proofs, k) && mid.proofs == before.proofs.remove(k)
                        && mid.evictions == before.evictions.wrapping_add(1);
                assert(is_oldest(before.proofs, k));
            }
        }
        Ok(())
    }

    /// The proof for `block_hash` and `proof_id`, if stored.
    pub fn get_proof(&self, block_hash: &ExecutionBlockHash, proof_id: ProofId) -> (r: Option<
        ExecutionPayloadProof,
    >)
        requires
            self.wf(),
        ensures
            match r {
                Some(p) => self@.proofs.contains_key(ProofKey(*block_hash, proof_id)) && p@
                    == self@.proofs[ProofKey(*block_hash, proof_id)]@,
                None => !self@.proofs.contains_key(ProofKey(*block_hash, proof_id)),
            },
    {
        match self.proofs.get(&ProofKey(*block_hash, proof_id)) {
            Some(p) => Some(p.clone_proof()),
            None => None,
        }
    }

    /// Every proof for `block_hash`, each once, in storage order.
    pub fn get_proofs(&self, block_hash: &ExecutionBlockHash) -> (r: Vec<ExecutionPayloadProof>)
        requires
            self.wf(),
        ensures
            exists|ks: Seq<ProofKey>|
                ks.to_set() == keys_for(self@.proofs, *block_hash) && ks.no_duplicates() && ks.len()
                    == r@.len() && forall|i: int|
                    0 <= i < ks.len() ==> r@[i]@ == self@.proofs[#[trigger] ks[i]]@,
    {
        let ghost entries = self.proofs.spec_entries();
        let n = self.proofs.len();
        let mut out: Vec<ExecutionPayloadProof> = Vec::new();
        let ghost mut ks: Seq<ProofKey> = Seq::empty();
        let mut i: usize = 0;
        while i < n
            invariant
                self.proofs.spec_entries() == entries,
                self.wf(),
                entries.len() == n,
                i <= n,
                ks.len() == out@.len(),
                ks.no_duplicates(),
                forall|a: int| 0 <= a < ks.len() ==> (#[trigger] ks[a]).0 == *block_hash,
                forall|a: int| 0 <= a < ks.len() ==> out@[a]@ == self@.proofs[#[trigger] ks[a]]@,
                forall|a: int|
                    #![trigger ks[a]]
                    0 <= a < ks.len() ==> exists|b: int| 0 <= b < i && (#[trigger] entries[b]).0 == ks[a],
                forall|b: int|
                    0 <= b < i && (#[trigger] entries[b]).0.0 == *block_hash ==> ks.contains(
                        entries[b].0,
                    ),
            decreases n - i,
        {
            let entry = self.proofs.entry_at(i);
            if entry.0.0.key_eq(block_hash) {
                proof {
                    lemma_entry_in_map(entries, i as int);
                    assert forall|a: int| 0 <= a < ks.len() implies ks[a] != entry.0 by {
                        let b = choose|b: int| 0 <= b < i && (#[trigger] entries[b]).0 == ks[a];
                        assert(b != i);
                    }
                }
                out.push(entry.1.clone_proof());
                proof {
                    let old_ks = ks;
                    ks = ks.push(entry.0);
                    assert forall|b: int|
                        0 <= b < i + 1 && (#[trigger] entries[b]).0.0 == *block_hash implies ks.contains(
                        entries[b].0,
                    ) by {
                        if b == i {
                            assert(ks[old_ks.len() as int] == entries[b].0);
                        } else {
                            let a = choose|a: int| 0 <= a < old_ks.len() && old_ks[a] == entries[b].0;
                            assert(ks[a] == old_ks[a]);
                        }
                    }
                    assert forall|a: int|
                        #![trigger ks[a]]
                        0 <= a < ks.len() implies exists|b: int|
                        0 <= b < i + 1 && (#[trigger] entries[b]).0 == ks[a] by {
                        if a < old_ks.len() {
                            assert(ks[a] == old_ks[a]);
                        } else {
                            assert(entries[i as int].0 == ks[a]);
                        }
                    }
                }
            }
            i = i + 1;
        }
        proof {
            assert(ks.to_set() =~= keys_for(self@.proofs, *block_hash)) by {
                assert forall|k: ProofKey| ks.to_set().contains(k) <==> keys_for(
                    self@.proofs,
                    *block_hash,
                ).contains(k) by {
                    if ks.to_set().contains(k) {
                        let a = choose|a: int| 0 <= a < ks.len() && ks[a] == k;
                        let b = choose|b: int| 0 <= b < i && (#[trigger] entries[b]).0 == ks[a];
                        lemma_entry_in_map(entries, b);
                    }
                    if keys_for(self@.proofs, *block_hash).contains(k) {
                        let b = choose|b: int| 0 <= b < entries.len() && (#[trigger] entries[b]).0 == k;
                        assert(ks.contains(entries[b].0));
                    }
                }
            }
        }
        out
    }

    /// Whether some proof for `block_hash` is stored.
    pub fn has_valid_proof(&self, block_hash: &ExecutionBlockHash) -> (r: bool)
        requires
            self.wf(),
        ensures
            r == (keys_for(self@.proofs, *block_hash).len() > 0),
    {
        self.proof_count_for_payload(block_hash) > 0
    }

    /// Whether the proof for `block_hash` and `proof_id` is stored.
    pub fn has_valid_proof_for_id(&self, block_hash: &ExecutionBlockHash, proof_id: ProofId) -> (r:
        bool)
        requires
            self.wf(),
        ensures
            r == self@.proofs.contains_key(ProofKey(*block_hash, proof_id)),
    {
        self.proofs.contains_key(&ProofKey(*block_hash, proof_id))
    }

    /// The number of proofs stored for `block_hash`.
    pub fn proof_count_for_payload(&self, block_hash: &ExecutionBlockHash) -> (r: usize)
        requires
            self.wf(),
        ensures
            r == keys_for(self@.proofs, *block_hash).len(),
    {
        let found = self.get_proofs(block_hash);
        proof {
            let ks = choose|ks: Seq<ProofKey>|
                ks.to_set() == keys_for(self@.proofs, *block_hash) && ks.no_duplicates() && ks.len()
                    == found@.len() && forall|i: int|
                    0 <= i < ks.len() ==> found@[i]@ == self@.proofs[#[trigger] ks[i]]@;
            ks.unique_seq_to_set();
        }
        found.len()
    }

    /// Whether at least `min_required` proofs are stored for `block_hash`.
    pub fn has_sufficient_proofs(&self, block_hash: &ExecutionBlockHash, min_required: usize) -> (r:
        bool)
        requires
            self.wf(),
        ensures
            r == (keys_for(self@.proofs, *block_hash).len() >= min_required),
    {
        self.proof_count_for_payload(block_hash) >= min_required
    }

    /// The number of stored proofs.
    pub fn len(&self) -> (r: usize)
        requires
            self.wf(),
        ensures
            r == self@.proofs.len(),
    {
        self.proofs.len()
    }

    /// Whether no proof is stored.
    pub fn is_empty(&self) -> (r: bool)
        requires
            self.wf(),
        ensures
            r == (self@.proofs.len() == 0),
    {
        self.len() == 0
    }

    /// Removes every proof.
    pub fn clear(&mut self) -> (r: Result<(), Error>)
        requires
            old(self).wf(),
        ensures
            final(self).wf(),
            r is Ok,
            final(self)@.proofs == Map::<ProofKey, ExecutionPayloadProof>::empty(),
            final(self)@.max_proofs == old(self)@.max_proofs,
            final(self)@.evictions == old(self)@.evictions,
            final(self)@.successful_stores == old(self)@.successful_stores,
            final(self)@.failed_stores == old(self)@.failed_stores,
    {
        self.proofs.clear();
        Ok(())
    }

    /// Removes every proof older than `cutoff_timestamp`, giving how many
    /// were removed.
    pub fn prune_old_proofs(&mut self, cutoff_timestamp: u64) -> (r: Result<usize, Error>)
        requires
            old(self).wf(),
        ensures
            final(self).wf(),
            final(self)@.proofs == old(self)@.proofs.restrict(
                old(self)@.proofs.dom().filter(
                    |k: ProofKey| old(self)@.proofs[k].timestamp >= cutoff_timestamp,
                ),
            ),
            r matches Ok(n) && n == old(self)@.proofs.len() - final(self)@.proofs.len(),
            final(self)@.max_proofs == old(self)@.max_proofs,
            final(self)@.evictions == old(self)@.evictions,
            final(self)@.successful_stores == old(self)@.successful_stores,
            final(self)@.failed_stores == old(self)@.failed_stores,
    {
        let ghost before = self@.proofs;
        let initial_len = self.proofs.len();
        let keys = self.proofs.keys();
        let ghost ks = keys@;
        proof {
            assert forall|h: ProofKey| before.contains_key(h) <==> ks.contains(h) by {
                if before.contains_key(h) {
                    let i = choose|i: int|
                        0 <= i < self.proofs.spec_entries().len() && (
                        #[trigger] self.proofs.spec_entries()[i]).0 == h;
                    assert(ks[i] == h);
                }
                if ks.contains(h) {
                    let i = choose|i: int| 0 <= i < ks.len() && #[trigger] ks[i] == h;
                    assert(self.proofs.spec_entries()[i].0 == h);
                }
            }
        }
        let mut i: usize = 0;
        while i < keys.len()
            invariant
                self.wf(),
                self@.max_proofs == old(self)@.max_proofs,
                self@.evictions == old(self)@.evictions,
                self@.successful_stores == old(self)@.successful_stores,
                self@.failed_stores == old(self)@.failed_stores,
                keys@ == ks,
                i <= ks.len(),
                forall|h: ProofKey| before.contains_key(h) <==> ks.contains(h),
                self@.proofs == before.restrict(
                    before.dom().filter(
                        |h: ProofKey|
                            !(before[h].timestamp < cutoff_timestamp && ks.take(i as int).contains(h)),
                    ),
                ),
            decreases ks.len() - i,
        {
            let h = keys[i];
            let is_old = match self.proofs.get(&h) {
                Some(p) => p.timestamp < cutoff_timestamp,
                None => false,
            };
            if is_old {
                self.proofs.remove(&h);
            }
            proof {
                let t0 = ks.take(i as int);
                let t1 = ks.take(i + 1);
                assert(t1 =~= t0.push(h));
                assert(ks.contains(h)) by {
                    assert(ks[i as int] == h);
                }
                assert forall|x: ProofKey| #[trigger] t1.contains(x) <==> (t0.contains(x) || x == h) by {
                    if t1.contains(x) {
                        let a = choose|a: int| 0 <= a < t1.len() && #[trigger] t1[a] == x;
                        if a < i {
                            assert(t0[a] == x);
                        }
                    }
                    if t0.contains(x) {
                        let a = choose|a: int| 0 <= a < t0.len() && #[trigger] t0[a] == x;
                        assert(t1[a] == x);
                    }
                    if x == h {
                        assert(t1[i as int] == x);
                    }
                }
                assert(self@.proofs =~= before.restrict(
                    before.dom().filter(
                        |x: ProofKey| !(before[x].timestamp < cutoff_timestamp && t1.contains(x)),
                    ),
                ));
            }
            i = i + 1;
        }
        proof {
            assert(ks.take(i as int) =~= ks);
            assert(self@.proofs =~= before.restrict(
                before.dom().filter(|k: ProofKey| before[k].timestamp >= cutoff_timestamp),
            ));
        }
        let final_len = self.proofs.len();
        proof {
            assert(self@.proofs.dom().subset_of(before.dom()));
            vstd::set_lib::lemma_len_subset(self@.proofs.dom(), before.dom());
        }
        Ok(initial_len - final_len)
    }

    /// The number of execution block hashes with a stored proof.
    pub fn unique_payload_count(&self) -> (r: usize)
        requires
            self.wf(),
        ensures
            r == payloads(self@.proofs).len(),
    {
        let ghost entries = self.proofs.spec_entries();
        let n = self.proofs.len();
        let mut hashes: VecSet<Hash256> = VecSet::new();
        let mut i: usize = 0;
        while i < n
            invariant
                self.proofs.spec_entries() == entries,
                self.wf(),
                entries.len() == n,
                i <= n,
                hashes.wf(),
                forall|h: Hash256|
                    hashes@.contains(h) <==> exists|b: int| 0 <= b < i && (#[trigger] entries[b]).0.0 == h,
            decreases n - i,
        {
            let h = self.proofs.entry_at(i).0.0;
            hashes.insert(h);
            proof {
                assert forall|x: Hash256|
                    hashes@.contains(x) <==> exists|b: int| 0 <= b < i + 1 && (#[trigger] entries[b]).0.0 == x by {
                    if x == h {
                        assert(entries[i as int].0.0 == x);
                    }
                }
            }
            i = i + 1;
        }
        proof {
            assert(hashes@ =~= payloads(self@.proofs)) by {
                assert forall|x: Hash256| hashes@.contains(x) <==> payloads(self@.proofs).contains(x) by {
                    if hashes@.contains(x) {
                        let b = choose|b: int| 0 <= b < n && (#[trigger] entries[b]).0.0 == x;
                        lemma_entry_in_map(entries, b);
                        assert(self@.proofs.dom().contains(entries[b].0));
                    }
                    if payloads(self@.proofs).contains(x) {
                        let k = choose|k: ProofKey| self@.proofs.dom().contains(k) && k.0 == x;
                        let b = choose|b: int| 0 <= b < entries.len() && (#[trigger] entries[b]).0 == k;
                        assert(entries[b].0.0 == x);
                    }
                }
            }
        }
        hashes.len()
    }

    /// The stored proofs, in storage order.
    pub closed spec fn entries(&self) -> Seq<(ProofKey, ExecutionPayloadProof)> {
        self.proofs.spec_entries()
    }

    /// The stored proofs in storage order are exactly the store's proofs,
    /// each under its own key once.
    pub proof fn lemma_entries(&self)
        requires
            self.wf(),
        ensures
            unique_keys(self.entries()),
            seq_to_map(self.entries()) == self@.proofs,
    {
    }

    /// Counts about the store: the proofs, the payloads with proofs, the
    /// proofs of each type (see [`type_count`]), the capacity and the
    /// counters.
    pub fn metrics(&self) -> (r: ProofStoreMetrics)
        requires
            self.wf(),
        ensures
            r.total_proofs == self@.proofs.len(),
            r.unique_payloads == payloads(self@.proofs).len(),
            r.capacity == self@.max_proofs,
            r.evictions == self@.evictions,
            r.successful_stores == self@.successful_stores,
            r.failed_stores == self@.failed_stores,
            forall|a: int, b: int|
                0 <= a < r.proofs_by_type@.len() && 0 <= b < r.proofs_by_type@.len() && a != b
                    ==> (#[trigger] r.proofs_by_type@[a]).0@ != (#[trigger] r.proofs_by_type@[b]).0@,
            forall|a: int|
                0 <= a < r.proofs_by_type@.len() ==> (#[trigger] r.proofs_by_type@[a]).1
                    == type_count(self.entries(), r.proofs_by_type@[a].0@),
            names_every_kind(r.proofs_by_type@, self.entries()),
    {
        let ghost entries = self.proofs.spec_entries();
        let n = self.proofs.len();
        let mut counts: Vec<(String, usize)> = Vec::new();
        let mut i: usize = 0;
        while i < n
            invariant
                self.proofs.spec_entries() == entries,
                self.wf(),
                entries.len() == n,
                i <= n,
                forall|a: int, b: int|
                    0 <= a < counts@.len() && 0 <= b < counts@.len() && a != b
                        ==> (#[trigger] counts@[a]).0@ != (#[trigger] counts@[b]).0@,
                forall|a: int|
                    0 <= a < counts@.len() ==> (#[trigger] counts@[a]).1 == type_count(
                        entries.take(i as int),
                        counts@[a].0@,
                    ),
                forall|b: int|
                    0 <= b < i ==> exists|a: int|
                        0 <= a < counts@.len() && (#[trigger] counts@[a]).0@ == proof_kind(
                            #[trigger] entries[b].1,
                        ),
            decreases n - i,
        {
            let name = self.proofs.entry_at(i).1.identifier();
            let ghost e = entries[i as int];
            let ghost prev = counts@;
            proof {
                assert(entries.take(i + 1).drop_last() =~= entries.take(i as int));
                assert(entries.take(i + 1).last() == e);
                reveal(Seq::filter);
                assert forall|x: Seq<char>|
                    #![trigger type_count(entries.take(i + 1), x)]
                    type_count(entries.take(i + 1), x) == type_count(entries.take(i as int), x) + (
                    if proof_kind(e.1) == x {
                        1int
                    } else {
                        0
                    }) by {
                    assert(entries.take(i + 1).drop_last() =~= entries.take(i as int));
                }
                assert forall|x: Seq<char>| type_count(entries.take(i as int), x) <= i by {
                    entries.take(i as int).lemma_filter_len(of_type(x));
                }
            }
            let mut j: usize = 0;
            let mut found = false;
            while j < counts.len()
                invariant_except_break
                    !found,
                invariant
                    counts@ == prev,
                    j <= counts@.len(),
                    forall|a: int| 0 <= a < j ==> (#[trigger] counts@[a]).0@ != name@,
                ensures
                    j <= counts@.len(),
                    found ==> j < counts@.len() && counts@[j as int].0@ == name@,
                    !found ==> forall|a: int| 0 <= a < counts@.len() ==> (#[trigger] counts@[a]).0@ != name@,
                decreases counts@.len() - j,
            {
                if counts[j].0 == name {
                    found = true;
                    break;
                }
                j = j + 1;
            }
            if found {
                let bumped = (counts[j].0.clone(), counts[j].1 + 1);
                counts.set(j, bumped);
            } else {
                counts.push((name, 1));
            }
            proof {
                assert forall|a: int|
                    0 <= a < counts@.len() implies (#[trigger] counts@[a]).1 == type_count(
                    entries.take(i + 1),
                    counts@[a].0@,
                ) by {
                    if a < prev.len() {
                        assert(type_count(entries.take(i + 1), counts@[a].0@) == type_count(
                            entries.take(i as int),
                            counts@[a].0@,
                        ) + (if proof_kind(e.1) == counts@[a].0@ {
                            1int
                        } else {
                            0
                        }));
                    } else {
                        assert(type_count(entries.take(i + 1), name@) == type_count(
                            entries.take(i as int),
                            name@,
                        ) + 1);
                        assert(type_count(entries.take(i as int), name@) == 0) by {
                            if type_count(entries.take(i as int), name@) > 0 {
                                let t = entries.take(i as int);
                                let f = t.filter(of_type(name@));
                                t.lemma_filter_pred(of_type(name@), 0);
                                assert(f.contains(f[0]));
                                t.lemma_filter_contains_rev(of_type(name@), f[0]);
                                let b = choose|b: int| 0 <= b < t.len() && t[b] == f[0];
                                assert(entries[b] == t[b]);
                                let a = choose|a: int|
                                    0 <= a < prev.len() && (#[trigger] prev[a]).0@ == proof_kind(
                                        entries[b].1,
                                    );
                                assert(prev[a].0@ == name@);
                            }
                        }
                    }
                }
                assert forall|b: int| 0 <= b < i + 1 implies exists|a: int|
                    0 <= a < counts@.len() && (#[trigger] counts@[a]).0@ == proof_kind(
                        #[trigger] entries[b].1,
                    ) by {
                    if b == i {
                        if found {
                            assert(counts@[j as int].0@ == proof_kind(entries[b].1));
                        } else {
                            assert(counts@[prev.len() as int].0@ == proof_kind(entries[b].1));
                        }
                    } else {
                        let a = choose|a: int|
                            0 <= a < prev.len() && (#[trigger] prev[a]).0@ == proof_kind(entries[b].1);
                        assert(counts@[a].0@ == prev[a].0@);
                    }
                }
            }
            i = i + 1;
        }
        proof {
            assert(entries.take(n as int) =~= entries);
            assert(self.entries() == entries);
            assert forall|b: int| 0 <= b < self.entries().len() implies exists|a: int|
                0 <= a < counts@.len() && (#[trigger] counts@[a]).0@ == proof_kind(
                    #[trigger] self.entries()[b].1,
                ) by {
                let a = choose|a: int|
                    0 <= a < counts@.len() && (#[trigger] counts@[a]).0@ == proof_kind(entries[b].1);
            }
        }
        let unique_payloads = self.unique_payload_count();
        let ghost by_type = counts@;
        let r = ProofStoreMetrics {
            total_proofs: n,
            unique_payloads,
            proofs_by_type: counts,
            capacity: self.max_proofs,
            evictions: self.evictions,
            successful_stores: self.successful_stores,
            failed_stores: self.failed_stores,
        };
        proof {
            assert forall|b: int| 0 <= b < entries.len() implies kind_names(by_type).contains(
                proof_kind(#[trigger] entries[b].1),
            ) by {
                assert(entries[b].1 == entries[b].1);
                let a = choose|a: int|
                    0 <= a < by_type.len() && (#[trigger] by_type[a]).0@ == proof_kind(entries[b].1);
                assert(kind_names(by_type)[a] == proof_kind(entries[b].1));
            }
            assert(names_every_kind(by_type, entries));
        }
        r
    }

    /// Forgets every root it is given; the store holds no mapping from beacon
    /// roots to execution hashes, so nothing is removed.
    pub fn cleanup_finalized_blocks(&mut self, _finalized_roots: Vec<Hash256>) -> (r: usize)
        ensures
            r == 0,
            final(self)@ == old(self)@,
    {
        0
    }
}

/// `after` is `before` once `proof` is stored: when full (and not empty),
/// the oldest proof is evicted and counted, then `proof` is put under its
/// block hash and proof ID, and the store counted as successful.
pub open spec fn stored(before: StoreView, proof: ExecutionPayloadProof, after: StoreView) -> bool {
    let key = ProofKey(proof.block_hash, proof.proof_id);
    &&& after.max_proofs == before.max_proofs
    &&& after.successful_stores == before.successful_stores.wrapping_add(1)
    &&& after.failed_stores == before.failed_stores
    &&& if before.proofs.len() >= before.max_proofs && before.proofs.len() > 0 {
        exists|k: ProofKey|
            #[trigger] is_oldest(before.proofs, k) && after.proofs == before.proofs.remove(k).insert(
                key,
                proof,
            ) && after.evictions == before.evictions.wrapping_add(1)
    } else {
        after.proofs == before.proofs.insert(key, proof) && after.evictions == before.evictions
    }
}

/// A stored proof can be read back: after a store, the proof is held under
/// its block hash and proof ID.
pub proof fn store_then_read(before: StoreView, proof: ExecutionPayloadProof, after: StoreView)
    requires
        stored(before, proof, after),
    ensures
        after.proofs.contains_key(ProofKey(proof.block_hash, proof.proof_id)),
        after.proofs[ProofKey(proof.block_hash, proof.proof_id)] == proof,
{
    if before.proofs.len() >= before.max_proofs && before.proofs.len() > 0 {
        let k = choose|k: ProofKey|
            #[trigger] is_oldest(before.proofs, k) && after.proofs == before.proofs.remove(k).insert(
                ProofKey(proof.block_hash, proof.proof_id),
                proof,
            ) && after.evictions == before.evictions.wrapping_add(1);
    }
}

/// A store with room for at least one proof never holds more than its
/// capacity: storing into a store within its capacity keeps it within it.
pub proof fn store_stays_within_capacity(
    before: StoreView,
    proof: ExecutionPayloadProof,
    after: StoreView,
)
    requires
        before.proofs.dom().finite(),
        before.max_proofs > 0,
        before.proofs.len() <= before.max_proofs,
        stored(before, proof, after),
    ensures
        after.proofs.len() <= after.max_proofs,
{
    let key = ProofKey(proof.block_hash, proof.proof_id);
    if before.proofs.len() >= before.max_proofs && before.proofs.len() > 0 {
        let k = choose|k: ProofKey|
            #[trigger] is_oldest(before.proofs, k) && after.proofs == before.proofs.remove(k).insert(
                key,
                proof,
            ) && after.evictions == before.evictions.wrapping_add(1);
        assert(before.proofs.remove(k).len() == before.proofs.len() - 1);
        lemma_insert_len(before.proofs.remove(k), key, proof);
    } else {
        lemma_insert_len(before.proofs, key, proof);
    }
}

/// Inserting into a finite map adds at most one entry.
proof fn lemma_insert_len(m: Map<ProofKey, ExecutionPayloadProof>, k: ProofKey, v: ExecutionPayloadProof)
    requires
        m.dom().finite(),
    ensures
        m.insert(k, v).len() <= m.len() + 1,
{
    if m.contains_key(k) {
        assert(m.insert(k, v).dom() =~= m.dom());
    } else {
        assert(m.insert(k, v).dom() =~= m.dom().insert(k));
    }
}

} // verus!
