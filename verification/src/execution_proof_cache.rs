//! Execution proofs received via gossip subnets: a cache of proofs by the
//! payload hash they are for, kept in least-recently-used order, the
//! payloads waiting for a proof, the result of validating a proof, and the
//! configuration of proof-based payload verification.
use lru::LruCache;
use std::collections::hash_map::RandomState;
use std::time::Instant;
use vstd::prelude::*;
use crate::clock::{instant_now, nanos_between, nanos_from};
use crate::consensus::execution_proof::same_execution_proof;
use crate::consensus::{ExecutionProof, ProofSubnetId, ProofType};
use crate::keyed::{lemma_map_len, VecMap};
use crate::primitives::Hash256;
use crate::recency::{
    key_of, key_root, lemma_filter_congruent, lemma_filter_keeps_all, lemma_filter_twice,
    lru_capacity, lru_new, lru_pop_entry, lru_promote, lru_push, lru_valid,
    other_than, recency, root_key, root_of, touched, without, RootKey,
};

verus! {

/// Result of proof validation
#[derive(Debug)]
pub enum ProofValidationResult {
    Valid,
    Invalid { reason: String },
    Error { error: String },
}

/// The payload hash a proof of subnet `subnet` with data `data` is for: the
/// first 32 bytes of the data, for the SP1, Risc0 and witness subnets (0 to
/// 2); `None` when the data is shorter or the subnet is another.
pub open spec fn spec_payload_hash(data: Seq<u8>, subnet: u64) -> Option<Hash256> {
    if subnet <= 2 && data.len() >= 32 {
        Some(Hash256::spec_from_bytes(data))
    } else {
        None
    }
}

/// The message when no payload hash can be read.
pub open spec fn extract_error(data: Seq<u8>, subnet: u64) -> Seq<char> {
    if subnet == 0 {
        "SP1 proof too short for payload hash extraction"@
    } else if subnet == 1 {
        "Risc0 proof too short for payload hash extraction"@
    } else if subnet == 2 {
        "Execution witness too short for payload hash extraction"@
    } else {
        "Unsupported proof type"@
    }
}

/// Reads the payload hash of a proof (see [`spec_payload_hash`]); otherwise
/// the reason (see [`extract_error`]).
pub fn extract_payload_hash(proof_data: &[u8], subnet_id: ProofSubnetId) -> (r: Result<Hash256, String>)
    ensures
        match spec_payload_hash(proof_data@, subnet_id.0) {
            Some(h) => r matches Ok(x) && x == h,
            None => r matches Err(e) && e@ == extract_error(proof_data@, subnet_id.0),
        },
{
    let subnet: u64 = subnet_id.into();
    if subnet > 2 {
        return Err(String::from_str("Unsupported proof type"));
    }
    if proof_data.len() >= 32 {
        Ok(Hash256::from_slice(proof_data))
    } else if subnet == 0 {
        Err(String::from_str("SP1 proof too short for payload hash extraction"))
    } else if subnet == 1 {
        Err(String::from_str("Risc0 proof too short for payload hash extraction"))
    } else {
        Err(String::from_str("Execution witness too short for payload hash extraction"))
    }
}

/// Maximum number of proofs to cache.
pub const PROOF_CACHE_SIZE: usize = 1024;

/// How long to keep proofs in cache: five minutes, in nanoseconds.
pub const PROOF_CACHE_TTL_NANOS: u128 = 300_000_000_000;

/// How long to wait for proofs before timing out: one minute, in
/// nanoseconds.
pub const PENDING_PROOF_TIMEOUT_NANOS: u128 = 60_000_000_000;

/// A cached proof with metadata
#[derive(Debug)]
pub struct CachedProof {
    pub proof: ExecutionProof,
    pub subnet_id: ProofSubnetId,
    pub received_at: Instant,
}

/// `a` and `b` hold the same cached proof.
pub open spec fn same_cached(a: CachedProof, b: CachedProof) -> bool {
    &&& same_execution_proof(a.proof, b.proof)
    &&& a.subnet_id == b.subnet_id
    &&& a.received_at == b.received_at
}

impl CachedProof {
    /// A copy of the cached proof.
    pub fn clone_cached(&self) -> (r: CachedProof)
        ensures
            same_cached(r, *self),
    {
        CachedProof {
            proof: self.proof.clone_proof(),
            subnet_id: self.subnet_id,
            received_at: self.received_at,
        }
    }
}

/// Proofs by payload hash, with the hashes' recency: when full, putting a
/// new hash drops the least recently used one.
pub struct ProofLru {
    proofs: VecMap<Hash256, CachedProof>,
    order: LruCache<RootKey, (), RandomState>,
}

/// A proof cache as contracts see it: the proofs by payload hash, and the
/// hashes from the least to the most recently used.
pub struct ProofLruView {
    pub proofs: Map<Hash256, CachedProof>,
    pub order: Seq<RootKey>,
    pub capacity: nat,
}

impl View for ProofLru {
    type V = ProofLruView;

    closed spec fn view(&self) -> ProofLruView {
        ProofLruView {
            proofs: self.proofs@,
            order: recency(self.order),
            capacity: lru_capacity(self.order),
        }
    }
}

/// The proofs held for the hashes in `order`: `m` with each key dropped
/// whose hash left the order.
pub open spec fn held_in(m: Map<Hash256, CachedProof>, order: Seq<RootKey>) -> Map<Hash256, CachedProof> {
    m.restrict(Set::new(|h: Hash256| order.contains(key_of(h))))
}

/// `without` keeps exactly the other keys.
proof fn lemma_without_contains(s: Seq<RootKey>, k: RootKey, x: RootKey)
    ensures
        without(s, k).contains(x) <==> (s.contains(x) && x != k),
{
    if s.contains(x) && x != k {
        let i = choose|i: int| 0 <= i < s.len() && s[i] == x;
        s.lemma_filter_contains(other_than(k), i);
    }
    if without(s, k).contains(x) {
        s.lemma_filter_contains_rev(other_than(k), x);
        let f = s.filter(other_than(k));
        let i = choose|i: int| 0 <= i < f.len() && f[i] == x;
        s.lemma_filter_pred(other_than(k), i);
    }
}

impl ProofLru {
    /// The cache holds a proof for exactly the hashes in its order, each
    /// once, and no more than its capacity.
    pub closed spec fn wf(&self) -> bool {
        &&& self.proofs.wf()
        &&& self.proofs@.dom().finite()
        &&& lru_valid(self.order)
        &&& forall|h: Hash256| #[trigger] self.proofs@.contains_key(h) <==> recency(self.order).contains(
            key_of(h),
        )
    }

    /// An empty cache for at most `capacity` proofs.
    pub fn new(capacity: usize) -> (r: Self)
        requires
            capacity > 0,
        ensures
            r.wf(),
            r@.proofs == Map::<Hash256, CachedProof>::empty(),
            r@.order.len() == 0,
            r@.capacity == capacity,
    {
        let r = ProofLru { proofs: VecMap::new(), order: lru_new(capacity) };
        r
    }

    /// Puts `cached` under `hash`, which becomes the most recently used; a
    /// new hash in a full cache first drops the least recently used one and
    /// its proof.
    pub fn put(&mut self, hash: Hash256, cached: CachedProof)
        requires
            old(self).wf(),
        ensures
            final(self).wf(),
            final(self)@.capacity == old(self)@.capacity,
            final(self)@.order == touched(old(self)@.order, key_of(hash), old(self)@.capacity),
            final(self)@.proofs == held_in(old(self)@.proofs, final(self)@.order).insert(hash, cached),
    {
        let ghost before = self@;
        let k = root_key(&hash);
        match lru_push(&mut self.order, k) {
            Some((dropped, _)) => {
                if !(dropped.0 == k.0 && dropped.1 == k.1 && dropped.2 == k.2 && dropped.3 == k.3) {
                    let gone = key_root(dropped);
                    self.proofs.remove(&gone);
                }
            },
            None => {},
        }
        let ghost mid = self@.proofs;
        self.proofs.insert(hash, cached);
        proof {
            let o = before.order;
            let o2 = self@.order;
            assert forall|x: RootKey| o2.contains(x) <==> (x == k || (o.contains(x) && (o.contains(k)
                || o.len() < before.capacity || x != o[0]))) by {
                if o.contains(k) {
                    lemma_without_contains(o, k, x);
                    let w = without(o, k);
                    if o2.contains(x) && x != k {
                        let i = choose|i: int| 0 <= i < o2.len() && o2[i] == x;
                        assert(w[i] == x);
                    }
                    if w.contains(x) {
                        let i = choose|i: int| 0 <= i < w.len() && w[i] == x;
                        assert(o2[i] == x);
                    }
                    assert(o2[w.len() as int] == k);
                } else if o.len() >= before.capacity {
                    let d = o.drop_first();
                    if o2.contains(x) && x != k {
                        let i = choose|i: int| 0 <= i < o2.len() && o2[i] == x;
                        assert(d[i] == x);
                        assert(o[i + 1] == x);
                        assert(x != o[0]);
                    }
                    if o.contains(x) && x != o[0] {
                        let i = choose|i: int| 0 <= i < o.len() && o[i] == x;
                        assert(i != 0);
                        assert(o2[i - 1] == x);
                    }
                    assert(o2[d.len() as int] == k);
                } else {
                    if o2.contains(x) && x != k {
                        let i = choose|i: int| 0 <= i < o2.len() && o2[i] == x;
                        assert(o[i] == x);
                    }
                    if o.contains(x) {
                        let i = choose|i: int| 0 <= i < o.len() && o[i] == x;
                        assert(o2[i] == x);
                    }
                    assert(o2[o.len() as int] == k);
                }
            }
            assert(self@.proofs =~= held_in(before.proofs, o2).insert(hash, cached)) by {
                assert forall|h: Hash256| #[trigger] self@.proofs.contains_key(h) <==> held_in(
                    before.proofs,
                    o2,
                ).insert(hash, cached).contains_key(h) by {
                    assert(o2.contains(key_of(h)) <==> (key_of(h) == k || (o.contains(key_of(h))
                        && (o.contains(k) || o.len() < before.capacity || key_of(h) != o[0]))));
                }
            }
        }
    }

    /// The proof under `hash`, if any; the hash becomes the most recently
    /// used.
    pub fn get(&mut self, hash: &Hash256) -> (r: Option<CachedProof>)
        requires
            old(self).wf(),
        ensures
            final(self).wf(),
            final(self)@.proofs == old(self)@.proofs,
            final(self)@.capacity == old(self)@.capacity,
            match r {
                Some(c) => old(self)@.proofs.contains_key(*hash) && same_cached(
                    c,
                    old(self)@.proofs[*hash],
                ) && final(self)@.order == without(old(self)@.order, key_of(*hash)).push(
                    key_of(*hash),
                ),
                None => !old(self)@.proofs.contains_key(*hash) && final(self)@.order == old(self)@.order,
            },
    {
        let ghost before = self@;
        let k = root_key(hash);
        let held = lru_promote(&mut self.order, k);
        proof {
            let o = before.order;
            let o2 = self@.order;
            assert forall|x: RootKey| o2.contains(x) <==> o.contains(x) by {
                if held {
                    lemma_without_contains(o, k, x);
                    let w = without(o, k);
                    if o2.contains(x) && x != k {
                        let i = choose|i: int| 0 <= i < o2.len() && o2[i] == x;
                        assert(w[i] == x);
                    }
                    if w.contains(x) {
                        let i = choose|i: int| 0 <= i < w.len() && w[i] == x;
                        assert(o2[i] == x);
                    }
                    assert(o2[w.len() as int] == k);
                }
            }
        }
        match self.proofs.get(hash) {
            Some(c) => Some(c.clone_cached()),
            None => None,
        }
    }

    /// Drops the proof under `hash` and the hash's place in the order.
    pub fn remove(&mut self, hash: &Hash256)
        requires
            old(self).wf(),
        ensures
            final(self).wf(),
            final(self)@.proofs == old(self)@.proofs.remove(*hash),
            final(self)@.order == without(old(self)@.order, key_of(*hash)),
            final(self)@.capacity == old(self)@.capacity,
    {
        let k = root_key(hash);
        lru_pop_entry(&mut self.order, k);
        self.proofs.remove(hash);
        proof {
            assert forall|h: Hash256| #[trigger] self.proofs@.contains_key(h) <==> recency(
                self.order,
            ).contains(key_of(h)) by {
                lemma_without_contains(old(self)@.order, k, key_of(h));
            }
        }
    }

    /// The payload hashes held, in storage order.
    pub fn hashes(&self) -> (r: Vec<Hash256>)
        requires
            self.wf(),
        ensures
            forall|h: Hash256| r@.contains(h) <==> self@.proofs.contains_key(h),
            r@.no_duplicates(),
    {
        let r = self.proofs.keys();
        proof {
            let s = self.proofs.spec_entries();
            assert forall|h: Hash256| r@.contains(h) <==> self@.proofs.contains_key(h) by {
                if self@.proofs.contains_key(h) {
                    let i = choose|i: int| 0 <= i < s.len() && (#[trigger] s[i]).0 == h;
                    assert(r@[i] == h);
                }
                if r@.contains(h) {
                    let i = choose|i: int| 0 <= i < r@.len() && #[trigger] r@[i] == h;
                    assert(s[i].0 == h);
                }
            }
            assert forall|i: int, j: int| 0 <= i < r@.len() && 0 <= j < r@.len() && i != j implies r@[i]
                != r@[j] by {
                assert(r@[i] == s[i].0);
                assert(r@[j] == s[j].0);
            }
        }
        r
    }

    /// When the proof under `hash` was received, if one is held.
    pub fn received_at(&self, hash: &Hash256) -> (r: Option<Instant>)
        requires
            self.wf(),
        ensures
            r == (if self@.proofs.contains_key(*hash) {
                Some(self@.proofs[*hash].received_at)
            } else {
                None
            }),
    {
        match self.proofs.get(hash) {
            Some(c) => Some(c.received_at),
            None => None,
        }
    }
}

/// The message sent to a payload waiting for a proof when the proof arrives:
/// verification is not implemented.
pub open spec fn not_implemented(r: ProofValidationResult) -> bool {
    r matches ProofValidationResult::Error { error } && error@ == "Proof verification not implemented"@
}

/// The message sent to a payload that waited too long for a proof.
pub open spec fn timed_out(r: ProofValidationResult) -> bool {
    r matches ProofValidationResult::Error { error } && error@ == "Proof validation timeout"@
}

/// `after` is `before` once the proofs whose hashes are not in `kept` are
/// dropped: the proofs of `kept` stay, and the order keeps their hashes.
pub open spec fn kept_proofs(before: ProofLruView, after: ProofLruView) -> bool {
    &&& after.proofs.submap_of(before.proofs)
    &&& after.capacity == before.capacity
    &&& after.order == before.order.filter(|k: RootKey| after.proofs.contains_key(root_of(k)))
}

/// `after` is `before` once `cached` is put under `hash` (see
/// [`ProofLru::put`]).
pub open spec fn put_proof(before: ProofLruView, hash: Hash256, cached: CachedProof, after: ProofLruView) -> bool {
    &&& after.capacity == before.capacity
    &&& after.order == touched(before.order, key_of(hash), before.capacity)
    &&& after.proofs == held_in(before.proofs, after.order).insert(hash, cached)
}

/// The proof `proof` of subnet `subnet_id` is cached as `c`, received at
/// some time.
pub open spec fn caches(c: CachedProof, proof: ExecutionProof, subnet_id: ProofSubnetId) -> bool {
    same_execution_proof(c.proof, proof) && c.subnet_id == subnet_id
}

/// `w` is where the result of a payload of `before` goes that `after` no
/// longer holds.
pub open spec fn sent_to_dropped<W>(
    before: Map<Hash256, PendingProofValidation<W>>,
    after: Map<Hash256, PendingProofValidation<W>>,
    w: W,
) -> bool {
    exists|h: Hash256|
        before.contains_key(h) && !after.contains_key(h) && w == before[h].validation_sender
}

/// Information about a payload waiting for proof validation, with the
/// handle that its result is sent to.
#[derive(Debug)]
pub struct PendingProofValidation<W> {
    pub payload_hash: Hash256,
    pub block_root: Hash256,
    pub accepted_at: Instant,
    pub validation_sender: W,
}

/// Cache for execution proofs and for optimistically accepted payloads
/// waiting for a proof; `W` is where a payload's validation result goes.
pub struct ExecutionProofCache<W> {
    proofs: ProofLru,
    pending_proofs: VecMap<Hash256, PendingProofValidation<W>>,
}

impl<W> ExecutionProofCache<W> {
    /// The proofs kept.
    pub closed spec fn cached(&self) -> ProofLruView {
        self.proofs@
    }

    /// The payloads waiting for a proof.
    pub closed spec fn pending(&self) -> Map<Hash256, PendingProofValidation<W>> {
        self.pending_proofs@
    }

    pub closed spec fn wf(&self) -> bool {
        &&& self.proofs.wf()
        &&& self.pending_proofs.wf()
        &&& self.pending_proofs@.dom().finite()
    }

    /// An empty cache for [`PROOF_CACHE_SIZE`] proofs.
    pub fn new() -> (r: Self)
        ensures
            r.wf(),
            r.cached().proofs == Map::<Hash256, CachedProof>::empty(),
            r.cached().order.len() == 0,
            r.cached().capacity == PROOF_CACHE_SIZE,
            r.pending() == Map::<Hash256, PendingProofValidation<W>>::empty(),
    {
        ExecutionProofCache { proofs: ProofLru::new(PROOF_CACHE_SIZE), pending_proofs: VecMap::new() }
    }

    /// Caches a proof from a gossip subnet under the payload hash it is for
    /// (see [`spec_payload_hash`]); a proof whose hash cannot be read is
    /// dropped. A payload waiting for this hash stops waiting and is handed
    /// back with the result to send it (see [`not_implemented`]).
    pub fn cache_proof(&mut self, proof: ExecutionProof, subnet_id: ProofSubnetId) -> (r: Option<
        (W, ProofValidationResult),
    >)
        requires
            old(self).wf(),
        ensures
            final(self).wf(),
            match spec_payload_hash(proof.proof_data@, subnet_id.0) {
                None => r is None && final(self).cached() == old(self).cached() && final(self).pending()
                    == old(self).pending(),
                Some(h) => {
                    &&& exists|c: CachedProof| #[trigger] caches(c, proof, subnet_id) && put_proof(
                        old(self).cached(),
                        h,
                        c,
                        final(self).cached(),
                    )
                    &&& final(self).pending() == old(self).pending().remove(h)
                    &&& if old(self).pending().contains_key(h) {
                        r matches Some((w, res)) && w == old(self).pending()[h].validation_sender
                            && not_implemented(res)
                    } else {
                        r is None
                    }
                },
            },
    {
        let payload_hash = match self.extract_payload_hash(&proof, subnet_id) {
            Ok(h) => h,
            Err(_) => {
                return None;
            },
        };
        let cached_proof = CachedProof { proof, subnet_id, received_at: instant_now() };
        let ghost c = cached_proof;
        self.proofs.put(payload_hash, cached_proof.clone_cached());
        let ghost stored = self.proofs@.proofs[payload_hash];
        proof {
            assert(caches(stored, c.proof, subnet_id));
        }
        let pending = self.pending_proofs.remove(&payload_hash);
        match pending {
            Some(pending) => Some(self.validate_pending_proof(pending, cached_proof)),
            None => None,
        }
    }

    /// The proof cached for `payload_hash`, if any; the hash becomes the
    /// most recently used (see [`ProofLru::get`]).
    pub fn get_proof(&mut self, payload_hash: Hash256) -> (r: Option<CachedProof>)
        requires
            old(self).wf(),
        ensures
            final(self).wf(),
            final(self).pending() == old(self).pending(),
            final(self).cached().proofs == old(self).cached().proofs,
            final(self).cached().capacity == old(self).cached().capacity,
            match r {
                Some(c) => old(self).cached().proofs.contains_key(payload_hash) && same_cached(
                    c,
                    old(self).cached().proofs[payload_hash],
                ) && final(self).cached().order == without(
                    old(self).cached().order,
                    key_of(payload_hash),
                ).push(key_of(payload_hash)),
                None => !old(self).cached().proofs.contains_key(payload_hash) && final(self).cached().order == old(self).cached().order,
            },
    {
        self.proofs.get(&payload_hash)
    }

    /// Records a payload accepted optimistically that waits for a proof; its
    /// result will go to `validation_sender`.
    pub fn add_pending_validation(
        &mut self,
        payload_hash: Hash256,
        block_root: Hash256,
        validation_sender: W,
    )
        requires
            old(self).wf(),
        ensures
            final(self).wf(),
            final(self).cached() == old(self).cached(),
            exists|p: PendingProofValidation<W>|
                p.payload_hash == payload_hash && p.block_root == block_root && p.validation_sender
                    == validation_sender && #[trigger] final(self).pending() == old(self).pending().insert(
                    payload_hash,
                    p,
                ),
    {
        let pending = PendingProofValidation {
            payload_hash,
            block_root,
            accepted_at: instant_now(),
            validation_sender,
        };
        let ghost p = pending;
        self.pending_proofs.insert(payload_hash, pending);
        proof {
            assert(self.pending() == old(self).pending().insert(payload_hash, p));
        }
    }

    /// Drops the proofs received at least five minutes ago, and the payloads
    /// that have waited more than a minute; each of those is handed back with
    /// the timeout result to send it (see [`timed_out`]).
    pub fn cleanup_expired(&mut self) -> (r: Vec<(W, ProofValidationResult)>)
        requires
            old(self).wf(),
        ensures
            final(self).wf(),
            kept_proofs(old(self).cached(), final(self).cached()),
            final(self).pending().submap_of(old(self).pending()),
            exists|now: Instant|
                final(self).cached().proofs == #[trigger] fresh_proofs(old(self).cached().proofs, now)
                    && final(self).pending() == waiting_pending(old(self).pending(), now),
            r@.len() + final(self).pending().len() == old(self).pending().len(),
            forall|i: int|
                0 <= i < r@.len() ==> timed_out((#[trigger] r@[i]).1) && sent_to_dropped(
                    old(self).pending(),
                    final(self).pending(),
                    r@[i].0,
                ),
    {
        let now = instant_now();
        self.drop_expired_proofs(&now);
        let ghost before = self.pending_proofs@;
        let keys = self.pending_proofs.keys();
        let ghost ks = keys@;
        proof {
            let s = self.pending_proofs.spec_entries();
            assert forall|h: Hash256| before.contains_key(h) <==> ks.contains(h) by {
                if before.contains_key(h) {
                    let i = choose|i: int| 0 <= i < s.len() && (#[trigger] s[i]).0 == h;
                    assert(ks[i] == h);
                }
                if ks.contains(h) {
                    let i = choose|i: int| 0 <= i < ks.len() && #[trigger] ks[i] == h;
                    assert(s[i].0 == h);
                }
            }
            assert forall|i: int, j: int| 0 <= i < ks.len() && 0 <= j < ks.len() && i != j implies ks[i]
                != ks[j] by {
                assert(ks[i] == s[i].0);
                assert(ks[j] == s[j].0);
            }
            lemma_map_len(s);
        }
        let mut out: Vec<(W, ProofValidationResult)> = Vec::new();
        let mut i: usize = 0;
        while i < keys.len()
            invariant
                self.wf(),
                self.cached() == old(self).cached() || kept_proofs(old(self).cached(), self.cached()),
                kept_proofs(old(self).cached(), self.cached()),
                keys@ == ks,
                i <= ks.len(),
                ks.no_duplicates(),
                forall|h: Hash256| before.contains_key(h) <==> ks.contains(h),
                old(self).pending() == before,
                self.pending_proofs@.submap_of(before),
                forall|h: Hash256|
                    before.contains_key(h) && !ks.take(i as int).contains(h) ==> #[trigger] self.pending_proofs@.contains_key(h),
                out@.len() + self.pending_proofs@.len() == before.len(),
                self.cached().proofs == fresh_proofs(old(self).cached().proofs, now),
                self.pending_proofs@ == pending_prefix(before, now, ks.take(i as int)),
                forall|a: int|
                    0 <= a < out@.len() ==> timed_out((#[trigger] out@[a]).1) && sent_to_dropped(
                        before,
                        self.pending_proofs@,
                        out@[a].0,
                    ),
            decreases ks.len() - i,
        {
            let h = keys[i];
            proof {
                assert(ks[i as int] == h);
                assert(!ks.take(i as int).contains(h)) by {
                    if ks.take(i as int).contains(h) {
                        let a = choose|a: int| 0 <= a < i && #[trigger] ks.take(i as int)[a] == h;
                        assert(ks[a] == ks[i as int]);
                    }
                }
                assert(ks.contains(h));
                assert(self.pending_proofs@.contains_key(h));
            }
            let ghost prior = self.pending_proofs@;
            proof {
                assert(prior[h] == before[h]);
            }
            let accepted_at = self.pending_proofs.get(&h).unwrap().accepted_at;
            let age = nanos_between(&now, &accepted_at);
            proof {
                assert(age == nanos_from(before[h].accepted_at, now));
            }
            if age > PENDING_PROOF_TIMEOUT_NANOS {
                let ghost prev = out@;
                let ghost map_before = self.pending_proofs@;
                let removed = self.pending_proofs.remove(&h);
                match removed {
                    Some(pending) => {
                        out.push(
                            (
                                pending.validation_sender,
                                ProofValidationResult::Error {
                                    error: String::from_str("Proof validation timeout"),
                                },
                            ),
                        );
                    },
                    None => {},
                }
                proof {
                    assert forall|a: int|
                        0 <= a < out@.len() implies timed_out((#[trigger] out@[a]).1) && sent_to_dropped(
                        before,
                        self.pending_proofs@,
                        out@[a].0,
                    ) by {
                        if a < prev.len() {
                            assert(out@[a] == prev[a]);
                            assert(sent_to_dropped(before, map_before, prev[a].0));
                            let x = choose|x: Hash256|
                                before.contains_key(x) && !map_before.contains_key(x) && prev[a].0
                                    == before[x].validation_sender;
                            assert(!self.pending_proofs@.contains_key(x));
                        } else {
                            assert(!self.pending_proofs@.contains_key(h));
                            assert(before.contains_key(h));
                        }
                    }
                }
            }
            proof {
                let t0 = ks.take(i as int);
                let t1 = ks.take(i + 1);
                assert forall|x: Hash256| #[trigger] t1.contains(x) <==> (t0.contains(x) || x == h) by {
                    if t1.contains(x) {
                        let a = choose|a: int| 0 <= a < t1.len() && t1[a] == x;
                        if a < i {
                            assert(t0[a] == x);
                        }
                    }
                    if t0.contains(x) {
                        let a = choose|a: int| 0 <= a < t0.len() && t0[a] == x;
                        assert(t1[a] == x);
                    }
                    if x == h {
                        assert(t1[i as int] == x);
                    }
                }
                let target = pending_prefix(before, now, t1);
                assert forall|x: Hash256| self.pending_proofs@.contains_key(x) <==> #[trigger] target.contains_key(x) by {
                    assert(t1.contains(x) <==> (t0.contains(x) || x == h));
                }
                assert(self.pending_proofs@ =~= target);
                assert forall|x: Hash256|
                    before.contains_key(x) && !ks.take(i + 1).contains(x) implies #[trigger] self.pending_proofs@.contains_key(x) by {
                    if ks.take(i as int).contains(x) {
                        let a = choose|a: int| 0 <= a < i && #[trigger] ks.take(i as int)[a] == x;
                        assert(ks.take(i + 1)[a] == x);
                    }
                    if x == h {
                        assert(ks.take(i + 1)[i as int] == x);
                    }
                }
            }
            i = i + 1;
        }
        proof {
            assert(ks.take(i as int) =~= ks);
            assert(self.pending_proofs@ =~= waiting_pending(before, now));
        }
        out
    }

    /// Drops the proofs received at least five minutes before `now`.
    fn drop_expired_proofs(&mut self, now: &Instant)
        requires
            old(self).wf(),
        ensures
            final(self).wf(),
            kept_proofs(old(self).cached(), final(self).cached()),
            final(self).cached().proofs == fresh_proofs(old(self).cached().proofs, *now),
            final(self).pending() == old(self).pending(),
    {
        drop_expired(&mut self.proofs, now);
    }

    /// Reads the payload hash a proof is for (see [`spec_payload_hash`]).
    fn extract_payload_hash(&self, proof: &ExecutionProof, subnet_id: ProofSubnetId) -> (r: Result<
        Hash256,
        String,
    >)
        ensures
            match spec_payload_hash(proof.proof_data@, subnet_id.0) {
                Some(h) => r matches Ok(x) && x == h,
                None => r matches Err(e) && e@ == extract_error(proof.proof_data@, subnet_id.0),
            },
    {
        let subnet: u64 = subnet_id.into();
        if subnet == 0 {
            self.extract_sp1_payload_hash(proof)
        } else if subnet == 1 {
            self.extract_risc0_payload_hash(proof)
        } else if subnet == 2 {
            self.extract_witness_payload_hash(proof)
        } else {
            Err(String::from_str("Unsupported proof type"))
        }
    }

    /// The first 32 bytes of an SP1 proof's data.
    fn extract_sp1_payload_hash(&self, proof: &ExecutionProof) -> (r: Result<Hash256, String>)
        ensures
            match spec_payload_hash(proof.proof_data@, 0) {
                Some(h) => r matches Ok(x) && x == h,
                None => r matches Err(e) && e@ == extract_error(proof.proof_data@, 0),
            },
    {
        extract_payload_hash(proof.proof_data_slice(), ProofSubnetId(0))
    }

    /// The first 32 bytes of a Risc0 proof's data.
    fn extract_risc0_payload_hash(&self, proof: &ExecutionProof) -> (r: Result<Hash256, String>)
        ensures
            match spec_payload_hash(proof.proof_data@, 1) {
                Some(h) => r matches Ok(x) && x == h,
                None => r matches Err(e) && e@ == extract_error(proof.proof_data@, 1),
            },
    {
        extract_payload_hash(proof.proof_data_slice(), ProofSubnetId(1))
    }

    /// The first 32 bytes of an execution witness's data.
    fn extract_witness_payload_hash(&self, proof: &ExecutionProof) -> (r: Result<Hash256, String>)
        ensures
            match spec_payload_hash(proof.proof_data@, 2) {
                Some(h) => r matches Ok(x) && x == h,
                None => r matches Err(e) && e@ == extract_error(proof.proof_data@, 2),
            },
    {
        extract_payload_hash(proof.proof_data_slice(), ProofSubnetId(2))
    }

    /// The result for a payload whose proof arrived: verification is not
    /// implemented, so an error (see [`not_implemented`]).
    fn validate_pending_proof(
        &self,
        pending: PendingProofValidation<W>,
        cached_proof: CachedProof,
    ) -> (r: (W, ProofValidationResult))
        ensures
            r.0 == pending.validation_sender,
            not_implemented(r.1),
    {
        let result = ProofValidationResult::Error {
            error: String::from_str("Proof verification not implemented"),
        };
        (pending.validation_sender, result)
    }
}

/// Execution proof cache shared by the whole node; `W` is where a waiting
/// payload's validation result goes. Several requests may wait on one
/// payload hash.
pub struct GlobalExecutionProofCache<W> {
    proofs: ProofLru,
    pending_proofs: VecMap<Hash256, Vec<W>>,
}

impl<W> GlobalExecutionProofCache<W> {
    /// The proofs kept.
    pub closed spec fn cached(&self) -> ProofLruView {
        self.proofs@
    }

    /// The requests waiting on each payload hash, in arrival order.
    pub closed spec fn waiting(&self) -> Map<Hash256, Seq<W>> {
        Map::new(|h: Hash256| self.pending_proofs@.contains_key(h), |h: Hash256| self.pending_proofs@[h]@)
    }

    pub closed spec fn wf(&self) -> bool {
        &&& self.proofs.wf()
        &&& self.pending_proofs.wf()
        &&& self.pending_proofs@.dom().finite()
    }

    /// An empty cache for [`PROOF_CACHE_SIZE`] proofs.
    pub fn new() -> (r: Self)
        ensures
            r.wf(),
            r.cached().proofs == Map::<Hash256, CachedProof>::empty(),
            r.cached().order.len() == 0,
            r.cached().capacity == PROOF_CACHE_SIZE,
            r.waiting() == Map::<Hash256, Seq<W>>::empty(),
    {
        let r = GlobalExecutionProofCache {
            proofs: ProofLru::new(PROOF_CACHE_SIZE),
            pending_proofs: VecMap::new(),
        };
        proof {
            assert(r.waiting() =~= Map::<Hash256, Seq<W>>::empty());
        }
        r
    }

    /// The proof cached for `payload_hash`, if any; the hash becomes the
    /// most recently used (see [`ProofLru::get`]).
    pub fn get_proof(&mut self, payload_hash: Hash256) -> (r: Option<CachedProof>)
        requires
            old(self).wf(),
        ensures
            final(self).wf(),
            final(self).waiting() == old(self).waiting(),
            final(self).cached().proofs == old(self).cached().proofs,
            final(self).cached().capacity == old(self).cached().capacity,
            match r {
                Some(c) => old(self).cached().proofs.contains_key(payload_hash) && same_cached(
                    c,
                    old(self).cached().proofs[payload_hash],
                ) && final(self).cached().order == without(
                    old(self).cached().order,
                    key_of(payload_hash),
                ).push(key_of(payload_hash)),
                None => !old(self).cached().proofs.contains_key(payload_hash)
                    && final(self).cached().order == old(self).cached().order,
            },
    {
        self.proofs.get(&payload_hash)
    }

    /// Caches a proof from gossip under the payload hash it is for (see
    /// [`spec_payload_hash`]); a proof whose hash cannot be read is dropped.
    /// Every request waiting on that hash stops waiting and is handed back
    /// with a `Valid` result, in arrival order.
    pub fn cache_proof(&mut self, proof: ExecutionProof, subnet_id: ProofSubnetId) -> (r: Vec<
        (W, ProofValidationResult),
    >)
        requires
            old(self).wf(),
        ensures
            final(self).wf(),
            match spec_payload_hash(proof.proof_data@, subnet_id.0) {
                None => r@.len() == 0 && final(self).cached() == old(self).cached() && final(self).waiting()
                    == old(self).waiting(),
                Some(h) => {
                    &&& exists|c: CachedProof| #[trigger] caches(c, proof, subnet_id) && put_proof(
                        old(self).cached(),
                        h,
                        c,
                        final(self).cached(),
                    )
                    &&& final(self).waiting() == old(self).waiting().remove(h)
                    &&& r@.len() == (if old(self).waiting().contains_key(h) {
                        old(self).waiting()[h].len()
                    } else {
                        0
                    })
                    &&& forall|i: int|
                        0 <= i < r@.len() ==> (#[trigger] r@[i]).0 == old(self).waiting()[h][i]
                            && r@[i].1 is Valid
                },
            },
    {
        let payload_hash = match extract_payload_hash(proof.proof_data_slice(), subnet_id) {
            Ok(h) => h,
            Err(_) => {
                return Vec::new();
            },
        };
        let cached_proof = CachedProof { proof, subnet_id, received_at: instant_now() };
        let ghost c = cached_proof;
        self.proofs.put(payload_hash, cached_proof);
        let ghost before_waiting = self.pending_proofs@;
        let pending_senders = match self.pending_proofs.remove(&payload_hash) {
            Some(v) => v,
            None => Vec::new(),
        };
        proof {
            assert(self.waiting() =~= old(self).waiting().remove(payload_hash));
        }
        let ghost senders = pending_senders@;
        let mut out: Vec<(W, ProofValidationResult)> = Vec::new();
        let mut rest = pending_senders;
        let mut i: usize = 0;
        let total = rest.len();
        while rest.len() > 0
            invariant
                i <= senders.len(),
                total == senders.len(),
                rest@ == senders.skip(i as int),
                out@.len() == i,
                forall|a: int| 0 <= a < i ==> (#[trigger] out@[a]).0 == senders[a] && out@[a].1 is Valid,
            decreases rest@.len(),
        {
            let sender = rest.remove(0);
            out.push((sender, ProofValidationResult::Valid));
            i = i + 1;
            proof {
                assert(rest@ =~= senders.skip(i as int));
            }
        }
        proof {
            assert(self.proofs@.proofs[payload_hash] == c);
            assert(caches(c, c.proof, subnet_id));
        }
        out
    }

    /// Adds a request waiting on `payload_hash`, after those already waiting;
    /// its result will go to `sender`.
    pub fn add_pending_validation(&mut self, payload_hash: Hash256, sender: W)
        requires
            old(self).wf(),
        ensures
            final(self).wf(),
            final(self).cached() == old(self).cached(),
            final(self).waiting() == old(self).waiting().insert(
                payload_hash,
                (if old(self).waiting().contains_key(payload_hash) {
                    old(self).waiting()[payload_hash]
                } else {
                    Seq::empty()
                }).push(sender),
            ),
    {
        let list = match self.pending_proofs.remove(&payload_hash) {
            Some(mut v) => {
                v.push(sender);
                v
            },
            None => {
                let mut v: Vec<W> = Vec::new();
                v.push(sender);
                v
            },
        };
        self.pending_proofs.insert(payload_hash, list);
        proof {
            assert(self.waiting() =~= old(self).waiting().insert(
                payload_hash,
                (if old(self).waiting().contains_key(payload_hash) {
                    old(self).waiting()[payload_hash]
                } else {
                    Seq::empty()
                }).push(sender),
            ));
        }
    }

    /// Drops the proofs received at least five minutes ago; the waiting
    /// requests all stay.
    pub fn cleanup_expired(&mut self)
        requires
            old(self).wf(),
        ensures
            final(self).wf(),
            kept_proofs(old(self).cached(), final(self).cached()),
            exists|now: Instant| final(self).cached().proofs == #[trigger] fresh_proofs(
                old(self).cached().proofs,
                now,
            ),
            final(self).waiting() == old(self).waiting(),
    {
        let now = instant_now();
        drop_expired(&mut self.proofs, &now);
    }

    /// Reads the payload hash a proof is for (see [`spec_payload_hash`]).
    fn extract_payload_hash(&self, proof: &ExecutionProof, subnet_id: ProofSubnetId) -> (r: Result<
        Hash256,
        String,
    >)
        ensures
            match spec_payload_hash(proof.proof_data@, subnet_id.0) {
                Some(h) => r matches Ok(x) && x == h,
                None => r matches Err(e) && e@ == extract_error(proof.proof_data@, subnet_id.0),
            },
    {
        extract_payload_hash(proof.proof_data_slice(), subnet_id)
    }
}

/// The debug text of a proof type: its variant's name.
pub open spec fn proof_type_text(t: ProofType) -> Seq<char> {
    match t {
        ProofType::SP1Proof => "SP1Proof"@,
        ProofType::Risc0Proof => "Risc0Proof"@,
        ProofType::ExecutionWitness => "ExecutionWitness"@,
    }
}

/// The error when no verifier is registered for `t`.
pub open spec fn no_verifier_message(t: ProofType) -> Seq<char> {
    "No verifier registered for proof type "@ + proof_type_text(t)
}

/// The error when no verifier is registered for `proof_type`.
fn no_verifier_error(proof_type: ProofType) -> (r: String)
    ensures
        r@ == no_verifier_message(proof_type),
{
    let name = match proof_type {
        ProofType::SP1Proof => "SP1Proof",
        ProofType::Risc0Proof => "Risc0Proof",
        ProofType::ExecutionWitness => "ExecutionWitness",
    };
    crate::text::concat2("No verifier registered for proof type ", name)
}

/// Registry of proof verifiers, one per proof type; `V` is how a verifier
/// is held.
pub struct ProofVerifierRegistry<V> {
    verifiers: VecMap<ProofType, V>,
}

impl<V> ProofVerifierRegistry<V> {
    /// The verifier of each proof type.
    pub closed spec fn registered(&self) -> Map<ProofType, V> {
        self.verifiers@
    }

    pub closed spec fn wf(&self) -> bool {
        self.verifiers.wf()
    }

    /// A registry with no verifier.
    pub fn new() -> (r: Self)
        ensures
            r.wf(),
            r.registered() == Map::<ProofType, V>::empty(),
    {
        ProofVerifierRegistry { verifiers: VecMap::new() }
    }

    /// Registers `verifier` for `proof_type`, replacing any earlier one.
    pub fn register_verifier(&mut self, proof_type: ProofType, verifier: V)
        requires
            old(self).wf(),
        ensures
            final(self).wf(),
            final(self).registered() == old(self).registered().insert(proof_type, verifier),
    {
        self.verifiers.insert(proof_type, verifier);
    }

    /// The verifier to run for `proof_type`; an error naming the type when
    /// none is registered.
    pub fn verify_proof(&self, proof_type: ProofType) -> (r: Result<&V, String>)
        requires
            self.wf(),
        ensures
            match r {
                Ok(v) => self.registered().contains_key(proof_type) && *v == self.registered()[proof_type],
                Err(e) => !self.registered().contains_key(proof_type) && e@ == no_verifier_message(
                    proof_type,
                ),
            },
    {
        match self.verifiers.get(&proof_type) {
            Some(v) => Ok(v),
            None => Err(no_verifier_error(proof_type)),
        }
    }
}

/// Proof verifier registry shared by the whole node; `F` is how a verifier
/// function is held. Nothing registers verifiers in it.
pub struct GlobalProofVerifierRegistry<F> {
    verifiers: VecMap<ProofType, F>,
}

impl<F> GlobalProofVerifierRegistry<F> {
    /// The verifier of each proof type.
    pub closed spec fn registered(&self) -> Map<ProofType, F> {
        self.verifiers@
    }

    pub closed spec fn wf(&self) -> bool {
        self.verifiers.wf()
    }

    /// A registry with no verifier.
    pub fn new() -> (r: Self)
        ensures
            r.wf(),
            r.registered() == Map::<ProofType, F>::empty(),
    {
        GlobalProofVerifierRegistry { verifiers: VecMap::new() }
    }

    /// The verifier function to run for `proof_type`; an error naming the
    /// type when none is registered.
    pub fn verify_proof(&self, proof_type: ProofType) -> (r: Result<&F, String>)
        requires
            self.wf(),
        ensures
            match r {
                Ok(f) => self.registered().contains_key(proof_type) && *f == self.registered()[proof_type],
                Err(e) => !self.registered().contains_key(proof_type) && e@ == no_verifier_message(
                    proof_type,
                ),
            },
    {
        match self.verifiers.get(&proof_type) {
            Some(f) => Ok(f),
            None => Err(no_verifier_error(proof_type)),
        }
    }
}

impl<W> Default for ExecutionProofCache<W> {
    /// An empty cache (see [`ExecutionProofCache::new`]).
    fn default() -> (r: Self)
        ensures
            r.wf(),
            r.cached().proofs == Map::<Hash256, CachedProof>::empty(),
            r.cached().order.len() == 0,
            r.cached().capacity == PROOF_CACHE_SIZE,
            r.pending() == Map::<Hash256, PendingProofValidation<W>>::empty(),
    {
        Self::new()
    }
}

/// Drops from `cache` the proofs received at least five minutes before
/// `now`.
fn drop_expired(cache: &mut ProofLru, now: &Instant)
    requires
        old(cache).wf(),
    ensures
        final(cache).wf(),
        kept_proofs(old(cache)@, final(cache)@),
        final(cache)@.proofs == fresh_proofs(old(cache)@.proofs, *now),
{
    let ghost before = cache@;
    let hashes = cache.hashes();
    let ghost hs = hashes@;
    let mut removed: Vec<Hash256> = Vec::new();
    proof {
        lemma_filter_keeps_all(before.order, |k: RootKey| !removed@.contains(root_of(k)));
    }
    let mut i: usize = 0;
    while i < hashes.len()
        invariant
            cache.wf(),
            hashes@ == hs,
            hs.no_duplicates(),
            forall|h: Hash256| hs.contains(h) <==> before.proofs.contains_key(h),
            i <= hs.len(),
            cache@.capacity == before.capacity,
            cache@.proofs.submap_of(before.proofs),
            forall|h: Hash256|
                before.proofs.contains_key(h) && !hs.take(i as int).contains(h) ==> #[trigger] cache@.proofs.contains_key(h),
            forall|h: Hash256| #[trigger] removed@.contains(h) <==> (before.proofs.contains_key(h) && !cache@.proofs.contains_key(h)),
            forall|h: Hash256| #[trigger] removed@.contains(h) <==> (hs.take(i as int).contains(h)
                && nanos_from(before.proofs[h].received_at, *now) >= PROOF_CACHE_TTL_NANOS),
            cache@.order == before.order.filter(|k: RootKey| !removed@.contains(root_of(k))),
        decreases hs.len() - i,
    {
        let h = hashes[i];
        proof {
            assert(hs[i as int] == h);
            assert(hs.contains(h));
            assert(!hs.take(i as int).contains(h)) by {
                if hs.take(i as int).contains(h) {
                    let a = choose|a: int| 0 <= a < i && #[trigger] hs.take(i as int)[a] == h;
                    assert(hs[a] == hs[i as int]);
                }
            }
        }
        proof {
            assert(before.proofs.contains_key(h));
            assert(cache@.proofs.contains_key(h));
            assert(cache@.proofs[h] == before.proofs[h]);
        }
        let received = cache.received_at(&h).unwrap();
        let age = nanos_between(now, &received);
        proof {
            let t0 = hs.take(i as int);
            let t1 = hs.take(i + 1);
            assert forall|x: Hash256| #[trigger] t1.contains(x) <==> (t0.contains(x) || x == h) by {
                if t1.contains(x) {
                    let a = choose|a: int| 0 <= a < t1.len() && t1[a] == x;
                    if a < i {
                        assert(t0[a] == x);
                    }
                }
                if t0.contains(x) {
                    let a = choose|a: int| 0 <= a < t0.len() && t0[a] == x;
                    assert(t1[a] == x);
                }
                if x == h {
                    assert(t1[i as int] == x);
                }
            }
        }
        if age >= PROOF_CACHE_TTL_NANOS {
            let ghost order_before = cache@.order;
            let ghost done = removed@;
            cache.remove(&h);
            removed.push(h);
            proof {
                let p = |k: RootKey| !done.contains(root_of(k));
                let q = other_than(key_of(h));
                lemma_filter_twice(before.order, p, q);
                assert forall|x: Hash256| #[trigger] removed@.contains(x) <==> (done.contains(x) || x == h) by {
                    if removed@.contains(x) {
                        let a = choose|a: int| 0 <= a < removed@.len() && #[trigger] removed@[a] == x;
                        if a < done.len() {
                            assert(done[a] == x);
                        }
                    }
                    if done.contains(x) {
                        let a = choose|a: int| 0 <= a < done.len() && #[trigger] done[a] == x;
                        assert(removed@[a] == x);
                    }
                    if x == h {
                        assert(removed@[done.len() as int] == x);
                    }
                }
                assert((|k: RootKey| p(k) && q(k)) =~= (|k: RootKey| !removed@.contains(root_of(k))));
            }
        }
        proof {
            assert forall|x: Hash256|
                before.proofs.contains_key(x) && !hs.take(i + 1).contains(x) implies #[trigger] cache@.proofs.contains_key(x) by {
                if hs.take(i as int).contains(x) {
                    let a = choose|a: int| 0 <= a < i && #[trigger] hs.take(i as int)[a] == x;
                    assert(hs.take(i + 1)[a] == x);
                }
                if x == h {
                    assert(hs.take(i + 1)[i as int] == x);
                }
            }
        }
        i = i + 1;
    }
    proof {
        let o = before.order;
        assert forall|j: int| 0 <= j < o.len() implies (|k: RootKey| !removed@.contains(root_of(k)))(
            #[trigger] o[j],
        ) == (|k: RootKey| cache@.proofs.contains_key(root_of(k)))(o[j]) by {
            let k = o[j];
            assert(key_of(root_of(k)) == k);
            assert(o.contains(k));
            assert(before.proofs.contains_key(root_of(k)));
        }
        lemma_filter_congruent(
            o,
            |k: RootKey| !removed@.contains(root_of(k)),
            |k: RootKey| cache@.proofs.contains_key(root_of(k)),
        );
        assert(hs.take(i as int) =~= hs);
        assert(cache@.proofs =~= fresh_proofs(before.proofs, *now)) by {
            assert forall|x: Hash256| cache@.proofs.contains_key(x) <==> fresh_proofs(before.proofs, *now).contains_key(x) by {
                assert(removed@.contains(x) <==> (hs.contains(x) && nanos_from(before.proofs[x].received_at, *now)
                    >= PROOF_CACHE_TTL_NANOS));
            }
        }
    }
}

/// The payloads of `m` that have waited at most a minute at the clock
/// reading `now`.
pub open spec fn waiting_pending<W>(m: Map<Hash256, PendingProofValidation<W>>, now: Instant) -> Map<
    Hash256,
    PendingProofValidation<W>,
> {
    m.restrict(m.dom().filter(|h: Hash256| nanos_from(m[h].accepted_at, now) <= PENDING_PROOF_TIMEOUT_NANOS))
}

/// `m` once the payloads among `seen` that waited more than a minute are
/// dropped.
pub open spec fn pending_prefix<W>(
    m: Map<Hash256, PendingProofValidation<W>>,
    now: Instant,
    seen: Seq<Hash256>,
) -> Map<Hash256, PendingProofValidation<W>> {
    m.restrict(
        m.dom().filter(
            |h: Hash256| !(seen.contains(h) && nanos_from(m[h].accepted_at, now) > PENDING_PROOF_TIMEOUT_NANOS),
        ),
    )
}

/// The proofs of `m` received less than five minutes before the clock
/// reading `now`.
pub open spec fn fresh_proofs(m: Map<Hash256, CachedProof>, now: Instant) -> Map<Hash256, CachedProof> {
    m.restrict(m.dom().filter(|h: Hash256| nanos_from(m[h].received_at, now) < PROOF_CACHE_TTL_NANOS))
}

/// Configuration for proof-based execution payload verification
#[derive(Debug)]
pub struct ProofConfig {
    /// Whether proof verification is enabled
    pub enabled: bool,
    /// Proof types to accept and verify
    pub accepted_proof_types: Vec<ProofType>,
    /// Whether to accept payloads optimistically when proofs are not available
    pub optimistic_acceptance: bool,
    /// Whether to fallback to normal execution verification if proof verification fails
    pub fallback_to_execution: bool,
    /// Timeout for proof verification operations (in milliseconds)
    pub verification_timeout_ms: u64,
    /// Maximum number of execution proofs to cache
    pub max_cache_size: usize,
    /// Time-to-live for cached execution proofs (in seconds)
    pub cache_ttl_seconds: u64,
}

impl Default for ProofConfig {
    fn default() -> (r: Self)
        ensures
            !r.enabled,
            r.accepted_proof_types@ == seq![
                ProofType::SP1Proof,
                ProofType::Risc0Proof,
                ProofType::ExecutionWitness,
            ],
            r.optimistic_acceptance,
            r.fallback_to_execution,
            r.verification_timeout_ms == 5000,
            r.max_cache_size == 1000,
            r.cache_ttl_seconds == 300,
    {
        let mut types: Vec<ProofType> = Vec::new();
        types.push(ProofType::SP1Proof);
        types.push(ProofType::Risc0Proof);
        types.push(ProofType::ExecutionWitness);
        proof {
            assert(types@ =~= seq![
                ProofType::SP1Proof,
                ProofType::Risc0Proof,
                ProofType::ExecutionWitness,
            ]);
        }
        ProofConfig {
            enabled: false,
            accepted_proof_types: types,
            optimistic_acceptance: true,
            fallback_to_execution: true,
            verification_timeout_ms: 5000,
            max_cache_size: 1000,
            cache_ttl_seconds: 300,
        }
    }
}

/// A proof put under a hash is then held under it, and the hash is the most
/// recently used.
pub proof fn put_then_held(before: ProofLruView, hash: Hash256, cached: CachedProof, after: ProofLruView)
    requires
        put_proof(before, hash, cached, after),
    ensures
        after.proofs.contains_key(hash),
        after.proofs[hash] == cached,
        after.order.len() > 0,
        after.order.last() == key_of(hash),
{
}

/// Putting a proof into a cache within its capacity keeps the cache within
/// it: a new hash in a full cache displaces the least recently used one.
pub proof fn put_stays_within_capacity(
    before: ProofLruView,
    hash: Hash256,
    cached: CachedProof,
    after: ProofLruView,
)
    requires
        before.capacity > 0,
        before.order.len() <= before.capacity,
        put_proof(before, hash, cached, after),
    ensures
        after.order.len() <= after.capacity,
{
    let k = key_of(hash);
    let o = before.order;
    if o.contains(k) {
        let i = choose|i: int| 0 <= i < o.len() && o[i] == k;
        assert(!other_than(k)(o[i]));
        lemma_filter_drops(o, other_than(k), i);
        assert(after.order.len() == without(o, k).len() + 1);
    }
}

/// A filter that drops an element of `s` gives a shorter sequence.
proof fn lemma_filter_drops(s: Seq<RootKey>, p: spec_fn(RootKey) -> bool, i: int)
    requires
        0 <= i < s.len(),
        !p(s[i]),
    ensures
        s.filter(p).len() < s.len(),
    decreases s.len(),
{
    reveal(Seq::filter);
    s.drop_last().lemma_filter_len(p);
    if i < s.len() - 1 {
        assert(s.drop_last()[i] == s[i]);
        lemma_filter_drops(s.drop_last(), p, i);
    }
}

} // verus!
