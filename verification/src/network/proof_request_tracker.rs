//! Outstanding requests for execution proofs sent to peers: who was asked
//! and when, how often a request was retried, and when to give up.
use std::time::Instant;
use vstd::prelude::*;
use crate::clock::{instant_now, nanos_between, nanos_from};
use crate::consensus::execution_proof::ExecutionProofSubnetId;
use crate::keyed::{lemma_map_len, MapKey, VecMap, VecSet};
use crate::primitives::Hash256;
use super::peer::PeerId;

verus! {

/// How long to wait for a peer to respond before considering the request
/// failed: ten seconds, in nanoseconds.
pub const PROOF_REQUEST_TIMEOUT_NANOS: u128 = 10_000_000_000;

/// Maximum number of times to retry requesting a proof from different peers.
pub const MAX_PROOF_REQUEST_RETRIES: usize = 3;

/// Maximum number of concurrent requests to different peers for the same
/// proof.
pub const MAX_CONCURRENT_PEER_REQUESTS: usize = 2;

/// How long a request is followed at most: five minutes, in nanoseconds.
pub const MAX_REQUEST_AGE_NANOS: u128 = 300_000_000_000;

/// The peers of `peers` asked less than [`PROOF_REQUEST_TIMEOUT_NANOS`]
/// before the clock reading `now`.
pub open spec fn active_at(peers: Map<PeerId, Instant>, now: Instant) -> Set<PeerId> {
    peers.dom().filter(|p: PeerId| nanos_from(peers[p], now) < PROOF_REQUEST_TIMEOUT_NANOS)
}

/// The peers of `peers` asked at least [`PROOF_REQUEST_TIMEOUT_NANOS`]
/// before the clock reading `now`.
pub open spec fn timed_out_at(peers: Map<PeerId, Instant>, now: Instant) -> Set<PeerId> {
    peers.dom().filter(|p: PeerId| nanos_from(peers[p], now) >= PROOF_REQUEST_TIMEOUT_NANOS)
}

/// Tracks a single proof request for a specific block and subnet.
#[derive(Debug)]
pub struct ProofRequest {
    /// When the first request was made
    pub first_requested: Instant,
    /// Peers we've asked and when we asked them
    pub requested_peers: VecMap<PeerId, Instant>,
    /// Total number of retry attempts
    pub retry_count: usize,
}

/// Mathematical value of a [`ProofRequest`].
pub struct RequestView {
    pub first_requested: Instant,
    pub peers: Map<PeerId, Instant>,
    pub retry_count: nat,
}

impl View for ProofRequest {
    type V = RequestView;

    open spec fn view(&self) -> RequestView {
        RequestView {
            first_requested: self.first_requested,
            peers: self.requested_peers@,
            retry_count: self.retry_count as nat,
        }
    }
}

impl ProofRequest {
    pub open spec fn wf(&self) -> bool {
        self.requested_peers.wf() && self.requested_peers@.dom().finite()
    }

    /// A request made now, to no peer yet, never retried.
    pub fn new() -> (r: Self)
        ensures
            r.wf(),
            r@.peers == Map::<PeerId, Instant>::empty(),
            r@.retry_count == 0,
    {
        ProofRequest { first_requested: instant_now(), requested_peers: VecMap::new(), retry_count: 0 }
    }

    /// Whether the request may be retried: fewer than
    /// [`MAX_PROOF_REQUEST_RETRIES`] retries so far.
    pub fn should_retry(&self) -> (r: bool)
        ensures
            r == (self.retry_count < MAX_PROOF_REQUEST_RETRIES),
    {
        self.retry_count < MAX_PROOF_REQUEST_RETRIES
    }

    /// Whether another peer may be asked concurrently: fewer than
    /// [`MAX_CONCURRENT_PEER_REQUESTS`] requests are active at the clock
    /// reading taken (see [`Self::active_requests`]).
    pub fn can_request_from_another_peer(&self) -> (r: bool)
        requires
            self.wf(),
        ensures
            self@.peers.len() < MAX_CONCURRENT_PEER_REQUESTS ==> r,
            exists|now: Instant| r == (#[trigger] active_at(self@.peers, now).len()
                < MAX_CONCURRENT_PEER_REQUESTS),
    {
        let a = self.active_requests();
        let ghost now = choose|now: Instant| a == #[trigger] active_at(self@.peers, now).len();
        proof {
            assert(a == active_at(self@.peers, now).len());
        }
        a < MAX_CONCURRENT_PEER_REQUESTS
    }

    /// The number of peers asked less than [`PROOF_REQUEST_TIMEOUT_NANOS`]
    /// before the monotonic clock reading taken now (see [`active_at`]); at
    /// most the number of peers asked.
    pub fn active_requests(&self) -> (r: usize)
        requires
            self.wf(),
        ensures
            r <= self@.peers.len(),
            exists|now: Instant| r == #[trigger] active_at(self@.peers, now).len(),
    {
        let now = instant_now();
        let ghost entries = self.requested_peers.spec_entries();
        let n = self.requested_peers.len();
        let ghost mut seen: Set<PeerId> = Set::empty();
        let mut count: usize = 0;
        let mut i: usize = 0;
        while i < n
            invariant
                self.wf(),
                entries == self.requested_peers.spec_entries(),
                n == entries.len(),
                i <= n,
                count <= i,
                seen.finite(),
                count == seen.len(),
                forall|p: PeerId|
                    seen.contains(p) <==> exists|b: int|
                        0 <= b < i && (#[trigger] entries[b]).0 == p && nanos_from(entries[b].1, now)
                            < PROOF_REQUEST_TIMEOUT_NANOS,
            decreases n - i,
        {
            let entry = self.requested_peers.entry_at(i);
            if nanos_between(&now, &entry.1) < PROOF_REQUEST_TIMEOUT_NANOS {
                proof {
                    if seen.contains(entry.0) {
                        let b = choose|b: int|
                            0 <= b < i && (#[trigger] entries[b]).0 == entry.0 && nanos_from(
                                entries[b].1,
                                now,
                            ) < PROOF_REQUEST_TIMEOUT_NANOS;
                        assert(entries[i as int].0 == entry.0);
                    }
                    seen = seen.insert(entry.0);
                    assert forall|p: PeerId|
                        seen.contains(p) implies exists|b: int|
                            0 <= b < i + 1 && (#[trigger] entries[b]).0 == p && nanos_from(entries[b].1, now)
                                < PROOF_REQUEST_TIMEOUT_NANOS by {
                        if p == entry.0 {
                            assert(entries[i as int].0 == p);
                        }
                    }
                }
                count = count + 1;
            }
            i = i + 1;
        }
        proof {
            assert(seen =~= active_at(self@.peers, now)) by {
                assert forall|p: PeerId| seen.contains(p) <==> active_at(self@.peers, now).contains(p) by {
                    if seen.contains(p) {
                        let b = choose|b: int|
                            0 <= b < n && (#[trigger] entries[b]).0 == p && nanos_from(entries[b].1, now)
                                < PROOF_REQUEST_TIMEOUT_NANOS;
                        crate::keyed::lemma_entry_in_map(entries, b);
                    }
                    if active_at(self@.peers, now).contains(p) {
                        let b = choose|b: int| 0 <= b < entries.len() && (#[trigger] entries[b]).0 == p;
                        crate::keyed::lemma_entry_in_map(entries, b);
                    }
                }
            }
            lemma_map_len(entries);
        }
        count
    }

    /// The peers asked at least [`PROOF_REQUEST_TIMEOUT_NANOS`] before the
    /// monotonic clock reading taken now (see [`timed_out_at`]), each once.
    pub fn timed_out_peers(&self) -> (r: Vec<PeerId>)
        requires
            self.wf(),
        ensures
            r@.no_duplicates(),
            forall|p: PeerId| r@.contains(p) ==> self@.peers.contains_key(p),
            exists|now: Instant| r@.to_set() == #[trigger] timed_out_at(self@.peers, now),
    {
        let now = instant_now();
        let ghost entries = self.requested_peers.spec_entries();
        let n = self.requested_peers.len();
        let mut out: Vec<PeerId> = Vec::new();
        let mut i: usize = 0;
        while i < n
            invariant
                self.wf(),
                entries == self.requested_peers.spec_entries(),
                n == entries.len(),
                i <= n,
                out@.no_duplicates(),
                forall|p: PeerId|
                    out@.contains(p) <==> exists|b: int|
                        0 <= b < i && (#[trigger] entries[b]).0 == p && nanos_from(entries[b].1, now)
                            >= PROOF_REQUEST_TIMEOUT_NANOS,
            decreases n - i,
        {
            let entry = self.requested_peers.entry_at(i);
            if nanos_between(&now, &entry.1) >= PROOF_REQUEST_TIMEOUT_NANOS {
                let ghost prev = out@;
                proof {
                    if prev.contains(entry.0) {
                        let b = choose|b: int|
                            0 <= b < i && (#[trigger] entries[b]).0 == entry.0 && nanos_from(
                                entries[b].1,
                                now,
                            ) >= PROOF_REQUEST_TIMEOUT_NANOS;
                        assert(entries[i as int].0 == entry.0);
                    }
                }
                out.push(entry.0);
                proof {
                    assert forall|a: int, c: int|
                        0 <= a < out@.len() && 0 <= c < out@.len() && a != c implies out@[a] != out@[c] by {
                        if a < prev.len() && c < prev.len() {
                            assert(prev[a] != prev[c]);
                        } else if a < prev.len() {
                            assert(prev.contains(prev[a]));
                        } else if c < prev.len() {
                            assert(prev.contains(prev[c]));
                        }
                    }
                    assert forall|p: PeerId|
                        out@.contains(p) <==> exists|b: int|
                            0 <= b < i + 1 && (#[trigger] entries[b]).0 == p && nanos_from(entries[b].1, now)
                                >= PROOF_REQUEST_TIMEOUT_NANOS by {
                        if out@.contains(p) {
                            let a = choose|a: int| 0 <= a < out@.len() && out@[a] == p;
                            if a < prev.len() {
                                assert(prev.contains(p));
                            } else {
                                assert(entries[i as int].0 == p);
                            }
                        }
                        if exists|b: int|
                            0 <= b < i + 1 && (#[trigger] entries[b]).0 == p && nanos_from(entries[b].1, now)
                                >= PROOF_REQUEST_TIMEOUT_NANOS {
                            let b = choose|b: int|
                                0 <= b < i + 1 && (#[trigger] entries[b]).0 == p && nanos_from(
                                    entries[b].1,
                                    now,
                                ) >= PROOF_REQUEST_TIMEOUT_NANOS;
                            if b < i {
                                assert(prev.contains(p));
                                let a = choose|a: int| 0 <= a < prev.len() && prev[a] == p;
                                assert(out@[a] == p);
                            } else {
                                assert(out@[prev.len() as int] == p);
                            }
                        }
                    }
                }
            }
            i = i + 1;
        }
        proof {
            assert(out@.to_set() =~= timed_out_at(self@.peers, now)) by {
                assert forall|p: PeerId| out@.to_set().contains(p) <==> timed_out_at(self@.peers, now).contains(p) by {
                    if out@.contains(p) {
                        let b = choose|b: int|
                            0 <= b < n && (#[trigger] entries[b]).0 == p && nanos_from(entries[b].1, now)
                                >= PROOF_REQUEST_TIMEOUT_NANOS;
                        crate::keyed::lemma_entry_in_map(entries, b);
                    }
                    if timed_out_at(self@.peers, now).contains(p) {
                        let b = choose|b: int| 0 <= b < entries.len() && (#[trigger] entries[b]).0 == p;
                        crate::keyed::lemma_entry_in_map(entries, b);
                    }
                }
            }
            assert forall|p: PeerId| out@.contains(p) implies self@.peers.contains_key(p) by {
                let b = choose|b: int|
                    0 <= b < n && (#[trigger] entries[b]).0 == p && nanos_from(entries[b].1, now)
                        >= PROOF_REQUEST_TIMEOUT_NANOS;
                crate::keyed::lemma_entry_in_map(entries, b);
            }
        }
        out
    }

    /// Records that `peer_id` was asked now.
    pub fn add_request(&mut self, peer_id: PeerId)
        requires
            old(self).wf(),
        ensures
            final(self).wf(),
            final(self)@.first_requested == old(self)@.first_requested,
            final(self)@.retry_count == old(self)@.retry_count,
            final(self)@.peers.dom() == old(self)@.peers.dom().insert(peer_id),
            forall|p: PeerId| p != peer_id && #[trigger] old(self)@.peers.contains_key(p) ==> final(self)@.peers[p] == old(self)@.peers[p],
    {
        self.requested_peers.insert(peer_id, instant_now());
    }

    /// Whether `peer_id` was asked.
    pub fn has_asked_peer(&self, peer_id: &PeerId) -> (r: bool)
        ensures
            r == self@.peers.contains_key(*peer_id),
    {
        self.requested_peers.contains_key(peer_id)
    }
}

/// Names a proof we need: the block and the subnet.
#[derive(Debug, Clone, Copy, PartialEq, Eq, Structural, Hash)]
pub struct ProofIdentifier {
    pub block_root: Hash256,
    pub subnet_id: ExecutionProofSubnetId,
}

impl MapKey for ProofIdentifier {
    fn key_eq(&self, other: &Self) -> (r: bool) {
        self.block_root.key_eq(&other.block_root) && self.subnet_id.key_eq(&other.subnet_id)
    }
}

/// The requests after a retry pass over `root` in which the requests of
/// `quiet` had no active peer: each quiet request for `root` that may be
/// retried counts one more retry, each that may not is dropped, and the
/// rest are unchanged.
pub open spec fn after_retry(
    before: Map<ProofIdentifier, RequestView>,
    root: Hash256,
    quiet: Set<ProofIdentifier>,
) -> Map<ProofIdentifier, RequestView> {
    Map::new(
        |id: ProofIdentifier|
            before.contains_key(id) && !(id.block_root == root && quiet.contains(id)
                && before[id].retry_count >= MAX_PROOF_REQUEST_RETRIES),
        |id: ProofIdentifier|
            if id.block_root == root && quiet.contains(id) {
                RequestView { retry_count: before[id].retry_count + 1, ..before[id] }
            } else {
                before[id]
            },
    )
}

/// Some clock reading finds no peer of `v` active.
pub open spec fn may_be_quiet(v: RequestView) -> bool {
    exists|now: Instant| #[trigger] active_at(v.peers, now).len() == 0
}

/// Some clock reading finds a peer of `v` active.
pub open spec fn may_be_busy(v: RequestView) -> bool {
    exists|now: Instant| #[trigger] active_at(v.peers, now).len() > 0
}

/// The requests of `quiet` are the followed requests for `root` among
/// `seen` whose clock reading in the pass found no active peer: each of
/// `quiet` had such a reading, each other one of `seen` a reading with an
/// active peer.
pub open spec fn quiet_read_in(
    before: Map<ProofIdentifier, RequestView>,
    root: Hash256,
    quiet: Set<ProofIdentifier>,
    seen: Seq<ProofIdentifier>,
) -> bool {
    &&& forall|x: ProofIdentifier|
        #[trigger] quiet.contains(x) ==> x.block_root == root && before.contains_key(x) && may_be_quiet(
            before[x],
        )
    &&& forall|x: ProofIdentifier|
        #[trigger] before.contains_key(x) && x.block_root == root && seen.contains(x) && !quiet.contains(x)
            ==> may_be_busy(before[x])
}

/// The requests of `quiet` are exactly the followed requests for `root`
/// whose clock reading in the pass found no active peer (see
/// [`quiet_read_in`]).
pub open spec fn quiet_as_read(
    before: Map<ProofIdentifier, RequestView>,
    root: Hash256,
    quiet: Set<ProofIdentifier>,
) -> bool {
    &&& forall|x: ProofIdentifier|
        #[trigger] quiet.contains(x) ==> x.block_root == root && before.contains_key(x) && may_be_quiet(
            before[x],
        )
    &&& forall|x: ProofIdentifier|
        #[trigger] before.contains_key(x) && x.block_root == root && !quiet.contains(x) ==> may_be_busy(
            before[x],
        )
}

/// The subnets retried in that pass: those of the quiet requests for `root`
/// that may be retried.
pub open spec fn retried_subnets(
    before: Map<ProofIdentifier, RequestView>,
    root: Hash256,
    quiet: Set<ProofIdentifier>,
) -> Set<ExecutionProofSubnetId> {
    Set::new(
        |s: ExecutionProofSubnetId|
            {
                let id = ProofIdentifier { block_root: root, subnet_id: s };
                before.contains_key(id) && quiet.contains(id) && before[id].retry_count
                    < MAX_PROOF_REQUEST_RETRIES
            },
    )
}

/// The requests after the proofs of `subnets` for `root` were requested from
/// `peer`: each such proof is followed (a new request, with no retry and only
/// `peer` asked, for a proof not followed before) and `peer` is among its
/// asked peers; every other request stays as it was.
pub open spec fn inserted(
    before: Map<ProofIdentifier, RequestView>,
    root: Hash256,
    subnets: Seq<ExecutionProofSubnetId>,
    peer: PeerId,
    after: Map<ProofIdentifier, RequestView>,
) -> bool {
    &&& forall|id: ProofIdentifier|
        #[trigger] after.contains_key(id) <==> (before.contains_key(id) || (id.block_root == root
            && subnets.contains(id.subnet_id)))
    &&& forall|id: ProofIdentifier|
        id.block_root == root && subnets.contains(id.subnet_id) ==> (
        #[trigger] after[id]).peers.contains_key(peer)
    &&& forall|id: ProofIdentifier|
        #[trigger] before.contains_key(id) ==> after[id].retry_count == before[id].retry_count
            && after[id].peers.dom() == (if id.block_root == root && subnets.contains(id.subnet_id) {
            before[id].peers.dom().insert(peer)
        } else {
            before[id].peers.dom()
        })
    &&& forall|id: ProofIdentifier|
        !before.contains_key(id) && #[trigger] after.contains_key(id) ==> after[id].retry_count == 0
            && after[id].peers.dom() == set![peer]
}

/// A proof requested from a peer is followed, with that peer among its asked
/// peers; the requests of other blocks are untouched by the request.
pub proof fn requested_proofs_are_tracked(
    before: Map<ProofIdentifier, RequestView>,
    root: Hash256,
    subnets: Seq<ExecutionProofSubnetId>,
    peer: PeerId,
    after: Map<ProofIdentifier, RequestView>,
    id: ProofIdentifier,
)
    requires
        inserted(before, root, subnets, peer, after),
    ensures
        id.block_root == root && subnets.contains(id.subnet_id) ==> after.contains_key(id)
            && after[id].peers.contains_key(peer),
        id.block_root != root ==> (after.contains_key(id) <==> before.contains_key(id)),
        id.block_root != root && before.contains_key(id) ==> after[id].retry_count
            == before[id].retry_count && after[id].peers.dom() == before[id].peers.dom(),
{
    assert(after.contains_key(id) <==> (before.contains_key(id) || (id.block_root == root
        && subnets.contains(id.subnet_id))));
    if id.block_root == root && subnets.contains(id.subnet_id) {
        assert(after[id].peers.contains_key(peer));
    }
}

/// A proof whose request was removed is no longer followed; the others stay
/// as they were.
pub proof fn removed_requests_are_not_tracked(
    before: Map<ProofIdentifier, RequestView>,
    removed: ProofIdentifier,
    after: Map<ProofIdentifier, RequestView>,
    id: ProofIdentifier,
)
    requires
        after == before.remove(removed),
    ensures
        !after.contains_key(removed),
        id != removed ==> (after.contains_key(id) <==> before.contains_key(id)),
        id != removed && before.contains_key(id) ==> after[id] == before[id],
{
}

/// Tracks all pending proof requests.
pub struct ProofRequestTracker {
    requests: VecMap<ProofIdentifier, ProofRequest>,
}

impl ProofRequestTracker {
    /// The requests, as values.
    pub closed spec fn outstanding(&self) -> Map<ProofIdentifier, RequestView> {
        Map::new(
            |id: ProofIdentifier| self.requests@.contains_key(id),
            |id: ProofIdentifier| self.requests@[id]@,
        )
    }

    pub closed spec fn wf(&self) -> bool {
        &&& self.requests.wf()
        &&& self.requests@.dom().finite()
        &&& forall|id: ProofIdentifier| #[trigger] self.requests@.contains_key(id) ==> self.requests@[id].wf()
    }

    /// A tracker with no request.
    pub fn new() -> (r: Self)
        ensures
            r.wf(),
            r.outstanding() == Map::<ProofIdentifier, RequestView>::empty(),
    {
        let r = ProofRequestTracker { requests: VecMap::new() };
        proof {
            assert(r.outstanding() =~= Map::<ProofIdentifier, RequestView>::empty());
        }
        r
    }

    /// Records that the proofs of `subnet_ids` for `block_root` were
    /// requested from `peer_id`: each proof is followed (a new request for a
    /// new one) and `peer_id` is among its asked peers.
    pub fn insert_request(
        &mut self,
        block_root: Hash256,
        subnet_ids: &[ExecutionProofSubnetId],
        peer_id: PeerId,
    )
        requires
            old(self).wf(),
        ensures
            final(self).wf(),
            inserted(old(self).outstanding(), block_root, subnet_ids@, peer_id, final(self).outstanding()),
    {
        let mut i: usize = 0;
        while i < subnet_ids.len()
            invariant
                self.wf(),
                i <= subnet_ids@.len(),
                forall|id: ProofIdentifier|
                    #[trigger] self.outstanding().contains_key(id) <==> (old(self).outstanding().contains_key(id) || (
                    id.block_root == block_root && subnet_ids@.take(i as int).contains(id.subnet_id))),
                forall|id: ProofIdentifier|
                    id.block_root == block_root && subnet_ids@.take(i as int).contains(id.subnet_id)
                        ==> (#[trigger] self.outstanding()[id]).peers.contains_key(peer_id),
                forall|id: ProofIdentifier|
                    #[trigger] old(self).outstanding().contains_key(id) ==> self.outstanding()[id].retry_count
                        == old(self).outstanding()[id].retry_count && self.outstanding()[id].peers.dom() == (
                    if id.block_root == block_root && subnet_ids@.take(i as int).contains(id.subnet_id) {
                        old(self).outstanding()[id].peers.dom().insert(peer_id)
                    } else {
                        old(self).outstanding()[id].peers.dom()
                    }),
                forall|id: ProofIdentifier|
                    !old(self).outstanding().contains_key(id) && #[trigger] self.outstanding().contains_key(id)
                        ==> self.outstanding()[id].retry_count == 0 && self.outstanding()[id].peers.dom()
                        == set![peer_id],
            decreases subnet_ids@.len() - i,
        {
            let subnet_id = subnet_ids[i];
            let id = ProofIdentifier { block_root, subnet_id };
            let ghost before = self.outstanding();
            let ghost was_tracked = self.requests@.contains_key(id);
            proof {
                if was_tracked {
                    assert(self.requests@[id].wf());
                }
            }
            let mut request = match self.requests.remove(&id) {
                Some(r) => r,
                None => ProofRequest::new(),
            };
            let ghost fresh = request@;
            request.add_request(peer_id);
            let ghost added = request@;
            self.requests.insert(id, request);
            proof {
                assert(self.outstanding() =~= before.insert(id, added));
                if was_tracked {
                    assert(fresh == before[id]);
                } else {
                    assert(fresh.peers.dom() =~= Set::<PeerId>::empty());
                    assert(added.peers.dom() =~= set![peer_id]);
                }
                assert(added.peers.contains_key(peer_id));
                if old(self).outstanding().contains_key(id) {
                    assert(before.contains_key(id));
                    assert(was_tracked);
                    assert(fresh == before[id]);
                    assert(before[id].retry_count == old(self).outstanding()[id].retry_count);
                    assert(added.peers.dom() =~= old(self).outstanding()[id].peers.dom().insert(peer_id));
                }
                let t0 = subnet_ids@.take(i as int);
                let t1 = subnet_ids@.take(i + 1);
                assert(t1 =~= t0.push(subnet_id));
                assert forall|s: ExecutionProofSubnetId| #[trigger] t1.contains(s) <==> (t0.contains(s) || s == subnet_id) by {
                    if t1.contains(s) {
                        let a = choose|a: int| 0 <= a < t1.len() && t1[a] == s;
                        if a < i {
                            assert(t0[a] == s);
                        }
                    }
                    if t0.contains(s) {
                        let a = choose|a: int| 0 <= a < t0.len() && t0[a] == s;
                        assert(t1[a] == s);
                    }
                    if s == subnet_id {
                        assert(t1[i as int] == s);
                    }
                }
            }
            i = i + 1;
        }
        proof {
            assert(subnet_ids@.take(i as int) =~= subnet_ids@);
        }
    }

    /// Whether the proof of `subnet_id` for `block_root` is followed.
    pub fn is_tracking(&self, block_root: &Hash256, subnet_id: ExecutionProofSubnetId) -> (r: bool)
        ensures
            r == self.outstanding().contains_key(ProofIdentifier { block_root: *block_root, subnet_id }),
    {
        self.requests.contains_key(&ProofIdentifier { block_root: *block_root, subnet_id })
    }

    /// Stops tracking the proof of `subnet_id` for `block_root`.
    pub fn remove_request(&mut self, block_root: &Hash256, subnet_id: ExecutionProofSubnetId)
        requires
            old(self).wf(),
        ensures
            final(self).wf(),
            final(self).outstanding() == old(self).outstanding().remove(
                ProofIdentifier { block_root: *block_root, subnet_id },
            ),
    {
        self.requests.remove(&ProofIdentifier { block_root: *block_root, subnet_id });
        proof {
            assert(self.outstanding() =~= old(self).outstanding().remove(
                ProofIdentifier { block_root: *block_root, subnet_id },
            ));
        }
    }

    /// The subnets whose proof for `block_root` should be requested again:
    /// each followed request for the block with no active peer (see
    /// [`ProofRequest::active_requests`]) is retried if it may be, counting
    /// one more retry, and given up otherwise (see [`after_retry`] and
    /// [`retried_subnets`]). Which requests had no active peer depends on the
    /// clock.
    pub fn get_retry_subnets(&mut self, block_root: &Hash256) -> (r: Vec<ExecutionProofSubnetId>)
        requires
            old(self).wf(),
        ensures
            final(self).wf(),
            r@.no_duplicates(),
            exists|quiet: Set<ProofIdentifier>|
                #[trigger] after_retry(old(self).outstanding(), *block_root, quiet) == final(self).outstanding()
                    && r@.to_set() == retried_subnets(old(self).outstanding(), *block_root, quiet)
                    && quiet_as_read(old(self).outstanding(), *block_root, quiet),
    {
        let ghost before = self.outstanding();
        let keys = self.requests.keys();
        let ghost ks = keys@;
        proof {
            let s = self.requests.spec_entries();
            assert forall|h: ProofIdentifier| before.contains_key(h) <==> ks.contains(h) by {
                if before.contains_key(h) {
                    let i = choose|i: int| 0 <= i < s.len() && (#[trigger] s[i]).0 == h;
                    assert(ks[i] == h);
                }
                if ks.contains(h) {
                    let i = choose|i: int| 0 <= i < ks.len() && #[trigger] ks[i] == h;
                    assert(s[i].0 == h);
                }
            }
            assert forall|i: int, j: int| 0 <= i < ks.len() && 0 <= j < ks.len() && i != j implies ks[i]
                != ks[j] by {
                assert(ks[i] == s[i].0);
                assert(ks[j] == s[j].0);
            }
        }
        let mut retry_subnets: Vec<ExecutionProofSubnetId> = Vec::new();
        let ghost mut quiet: Set<ProofIdentifier> = Set::empty();
        let mut i: usize = 0;
        while i < keys.len()
            invariant
                self.wf(),
                keys@ == ks,
                ks.no_duplicates(),
                i <= ks.len(),
                forall|h: ProofIdentifier| before.contains_key(h) <==> ks.contains(h),
                forall|h: ProofIdentifier| #[trigger] quiet.contains(h) ==> ks.take(i as int).contains(h),
                quiet_read_in(before, *block_root, quiet, ks.take(i as int)),
                self.outstanding() == after_retry_prefix(before, *block_root, quiet, ks.take(i as int)),
                retry_subnets@.no_duplicates(),
                forall|s: ExecutionProofSubnetId|
                    retry_subnets@.contains(s) <==> retried_subnets(before, *block_root, quiet).contains(s),
            decreases ks.len() - i,
        {
            let id = keys[i];
            let ghost t0 = ks.take(i as int);
            let ghost t1 = ks.take(i + 1);
            proof {
                assert(t1 =~= t0.push(id));
                assert(ks[i as int] == id);
                assert(ks.contains(id));
                assert(!t0.contains(id)) by {
                    if t0.contains(id) {
                        let a = choose|a: int| 0 <= a < t0.len() && t0[a] == id;
                        assert(ks[a] == ks[i as int]);
                    }
                }
                assert forall|x: ProofIdentifier| #[trigger] t1.contains(x) <==> (t0.contains(x) || x == id) by {
                    if t1.contains(x) {
                        let a = choose|a: int| 0 <= a < t1.len() && t1[a] == x;
                        if a < i {
                            assert(t0[a] == x);
                        }
                    }
                    if t0.contains(x) {
                        let a = choose|a: int| 0 <= a < t0.len() && t0[a] == x;
                        assert(t1[a] == x);
                    }
                    if x == id {
                        assert(t1[i as int] == x);
                    }
                }
            }
            if id.block_root.key_eq(block_root) {
                let ghost outstanding_before = self.outstanding();
                let ghost quiet_before = quiet;
                proof {
                    assert(self.outstanding().contains_key(id));
                    assert(self.requests@.contains_key(id));
                    assert(self.requests@[id].wf());
                }
                let ghost cur_requests = self.requests@;
                let mut request = self.requests.remove(&id).unwrap();
                let ghost req_view = request@;
                let ghost subnets_before = retry_subnets@;
                proof {
                    assert(req_view == cur_requests[id]@);
                    assert(outstanding_before[id] == req_view);
                    assert(outstanding_before == after_retry_prefix(before, *block_root, quiet, t0));
                    assert(req_view == before[id]);
                }
                let active = request.active_requests();
                let retry = request.should_retry();
                proof {
                    let now = choose|now: Instant| active == #[trigger] active_at(request@.peers, now).len();
                    assert(active == active_at(before[id].peers, now).len());
                    if active == 0 {
                        assert(may_be_quiet(before[id]));
                    } else {
                        assert(may_be_busy(before[id]));
                    }
                }
                if active == 0 && retry {
                    request.retry_count = request.retry_count + 1;
                    proof {
                        quiet = quiet.insert(id);
                        assert(!retry_subnets@.contains(id.subnet_id)) by {
                            if retry_subnets@.contains(id.subnet_id) {
                                assert(retried_subnets(before, *block_root, quiet_before).contains(
                                    id.subnet_id,
                                ));
                                assert(t0.contains(id));
                            }
                        }
                    }
                    retry_subnets.push(id.subnet_id);
                    self.requests.insert(id, request);
                } else if !retry && active == 0 {
                    proof {
                        quiet = quiet.insert(id);
                    }
                } else {
                    self.requests.insert(id, request);
                }
                proof {
                    assert forall|x: ProofIdentifier|
                        #[trigger] before.contains_key(x) && x.block_root == *block_root && t1.contains(x)
                            && !quiet.contains(x) implies may_be_busy(before[x]) by {
                        if x != id {
                            assert(quiet.contains(x) == quiet_before.contains(x));
                            assert(t0.contains(x));
                        }
                    }
                    assert(quiet_read_in(before, *block_root, quiet, t1));
                    let target = after_retry_prefix(before, *block_root, quiet, t1);
                    assert forall|x: ProofIdentifier| #[trigger] self.outstanding().contains_key(x) <==> target.contains_key(x) by {
                        if x != id {
                            assert(quiet.contains(x) == quiet_before.contains(x));
                            assert(outstanding_before.contains_key(x) == self.outstanding().contains_key(x));
                        }
                    }
                    assert forall|x: ProofIdentifier| #[trigger] self.outstanding().contains_key(x) implies self.outstanding()[x]
                        == target[x] by {
                        assert(t1.contains(x) == (t0.contains(x) || x == id));
                        if x != id {
                            assert(quiet.contains(x) == quiet_before.contains(x));
                            assert(self.requests@[x] == cur_requests[x]);
                            assert(outstanding_before.contains_key(x));
                            assert(outstanding_before[x] == cur_requests[x]@);
                            assert(self.outstanding()[x] == outstanding_before[x]);
                        } else {
                            assert(self.outstanding()[x] == self.requests@[x]@);
                        }
                    }
                    assert(self.outstanding() =~= target);
                    assert forall|s: ExecutionProofSubnetId|
                        retry_subnets@.contains(s) <==> retried_subnets(before, *block_root, quiet).contains(
                            s,
                        ) by {
                        let sid = ProofIdentifier { block_root: *block_root, subnet_id: s };
                        if sid != id {
                            assert(quiet.contains(sid) == quiet_before.contains(sid));
                            if retry_subnets@.contains(s) && !subnets_before.contains(s) {
                                let a = choose|a: int| 0 <= a < retry_subnets@.len() && retry_subnets@[a] == s;
                                if a < subnets_before.len() {
                                    assert(subnets_before[a] == s);
                                }
                            }
                            if subnets_before.contains(s) {
                                let a = choose|a: int| 0 <= a < subnets_before.len() && subnets_before[a] == s;
                                assert(retry_subnets@[a] == s);
                            }
                        } else {
                            if subnets_before.contains(s) {
                                assert(retried_subnets(before, *block_root, quiet_before).contains(s));
                                assert(t0.contains(id));
                            }
                            if retry_subnets@.contains(s) && !subnets_before.contains(s) {
                                let a = choose|a: int| 0 <= a < retry_subnets@.len() && retry_subnets@[a] == s;
                                if a < subnets_before.len() {
                                    assert(subnets_before[a] == s);
                                }
                            }
                            if retry_subnets@.len() > subnets_before.len() {
                                assert(retry_subnets@[subnets_before.len() as int] == s);
                            }
                        }
                    }
                }
            } else {
                proof {
                    assert(self.outstanding() =~= after_retry_prefix(before, *block_root, quiet, t1));
                    assert forall|x: ProofIdentifier|
                        #[trigger] before.contains_key(x) && x.block_root == *block_root && t1.contains(x)
                            && !quiet.contains(x) implies may_be_busy(before[x]) by {
                        assert(t0.contains(x));
                    }
                }
            }
            i = i + 1;
        }
        proof {
            assert(ks.take(i as int) =~= ks);
            assert(after_retry(before, *block_root, quiet) =~= after_retry_prefix(
                before,
                *block_root,
                quiet,
                ks,
            ));
            assert(retry_subnets@.to_set() =~= retried_subnets(before, *block_root, quiet));
        }
        retry_subnets
    }

    /// The peers asked for the proof of `subnet_id` for `block_root`; none
    /// when it is not followed.
    pub fn get_asked_peers(&self, block_root: &Hash256, subnet_id: ExecutionProofSubnetId) -> (r:
        VecSet<PeerId>)
        requires
            self.wf(),
        ensures
            r.wf(),
            r@ == (if self.outstanding().contains_key(ProofIdentifier { block_root: *block_root, subnet_id }) {
                self.outstanding()[ProofIdentifier { block_root: *block_root, subnet_id }].peers.dom()
            } else {
                Set::empty()
            }),
    {
        let mut out: VecSet<PeerId> = VecSet::new();
        match self.requests.get(&ProofIdentifier { block_root: *block_root, subnet_id }) {
            Some(req) => {
                let peers = req.requested_peers.keys();
                let ghost s = req.requested_peers.spec_entries();
                let mut i: usize = 0;
                while i < peers.len()
                    invariant
                        out.wf(),
                        req.wf(),
                        peers@ == crate::keyed::key_seq(s),
                        s == req.requested_peers.spec_entries(),
                        i <= peers@.len(),
                        forall|p: PeerId| out@.contains(p) <==> peers@.take(i as int).contains(p),
                    decreases peers@.len() - i,
                {
                    out.insert(peers[i]);
                    proof {
                        let t0 = peers@.take(i as int);
                        let t1 = peers@.take(i + 1);
                        assert forall|p: PeerId| out@.contains(p) <==> t1.contains(p) by {
                            if t1.contains(p) && p != peers@[i as int] {
                                let a = choose|a: int| 0 <= a < t1.len() && #[trigger] t1[a] == p;
                                assert(t0[a] == p);
                            }
                            if t0.contains(p) {
                                let a = choose|a: int| 0 <= a < t0.len() && #[trigger] t0[a] == p;
                                assert(t1[a] == p);
                            }
                            if p == peers@[i as int] {
                                assert(t1[i as int] == p);
                            }
                        }
                    }
                    i = i + 1;
                }
                proof {
                    assert(peers@.take(i as int) =~= peers@);
                    assert(out@ =~= req.requested_peers@.dom()) by {
                        assert forall|p: PeerId| out@.contains(p) <==> req.requested_peers@.contains_key(p) by {
                            if req.requested_peers@.contains_key(p) {
                                let a = choose|a: int| 0 <= a < s.len() && (#[trigger] s[a]).0 == p;
                                assert(peers@[a] == p);
                            }
                            if peers@.contains(p) {
                                let a = choose|a: int| 0 <= a < peers@.len() && #[trigger] peers@[a] == p;
                                assert(s[a].0 == p);
                            }
                        }
                    }
                }
                out
            },
            None => out,
        }
    }

    /// Whether another peer may be asked for the proof of `subnet_id` for
    /// `block_root`: always when it is not followed, otherwise when fewer
    /// than [`MAX_CONCURRENT_PEER_REQUESTS`] of its peers are active at the
    /// clock reading taken (see [`ProofRequest::can_request_from_another_peer`]).
    pub fn can_request_another_peer(&self, block_root: &Hash256, subnet_id: ExecutionProofSubnetId) -> (r:
        bool)
        requires
            self.wf(),
        ensures
            !self.outstanding().contains_key(ProofIdentifier { block_root: *block_root, subnet_id }) ==> r,
            self.outstanding().contains_key(ProofIdentifier { block_root: *block_root, subnet_id })
                && self.outstanding()[ProofIdentifier { block_root: *block_root, subnet_id }].peers.len()
                < MAX_CONCURRENT_PEER_REQUESTS ==> r,
            self.outstanding().contains_key(ProofIdentifier { block_root: *block_root, subnet_id })
                ==> exists|now: Instant| r == (#[trigger] active_at(
                self.outstanding()[ProofIdentifier { block_root: *block_root, subnet_id }].peers,
                now,
            ).len() < MAX_CONCURRENT_PEER_REQUESTS),
    {
        let id = ProofIdentifier { block_root: *block_root, subnet_id };
        match self.requests.get(&id) {
            Some(req) => {
                let r = req.can_request_from_another_peer();
                proof {
                    assert(self.outstanding()[id].peers == req@.peers);
                    let now = choose|now: Instant| r == (#[trigger] active_at(req@.peers, now).len()
                        < MAX_CONCURRENT_PEER_REQUESTS);
                    assert(r == (active_at(self.outstanding()[id].peers, now).len()
                        < MAX_CONCURRENT_PEER_REQUESTS));
                }
                r
            },
            None => true,
        }
    }

    /// Stops tracking the requests first made [`MAX_REQUEST_AGE_NANOS`] or
    /// longer before the monotonic clock reading taken now (see
    /// [`young_requests`]); the others stay unchanged.
    pub fn prune_old_requests(&mut self)
        requires
            old(self).wf(),
        ensures
            final(self).wf(),
            exists|now: Instant| final(self).outstanding() == #[trigger] young_requests(
                old(self).outstanding(),
                now,
            ),
    {
        let now = instant_now();
        let ghost before = self.outstanding();
        let keys = self.requests.keys();
        let ghost ks = keys@;
        proof {
            let s = self.requests.spec_entries();
            assert(ks.no_duplicates()) by {
                assert forall|a: int, b: int| 0 <= a < ks.len() && 0 <= b < ks.len() && a != b implies ks[a]
                    != ks[b] by {
                    assert(ks[a] == s[a].0);
                    assert(ks[b] == s[b].0);
                }
            }
            assert forall|id: ProofIdentifier| before.contains_key(id) <==> ks.contains(id) by {
                if before.contains_key(id) {
                    let a = choose|a: int| 0 <= a < s.len() && (#[trigger] s[a]).0 == id;
                    assert(ks[a] == id);
                }
                if ks.contains(id) {
                    let a = choose|a: int| 0 <= a < ks.len() && ks[a] == id;
                    assert(s[a].0 == id);
                }
            }
        }
        let mut i: usize = 0;
        while i < keys.len()
            invariant
                self.wf(),
                ks == keys@,
                ks.no_duplicates(),
                i <= ks.len(),
                forall|id: ProofIdentifier| before.contains_key(id) <==> ks.contains(id),
                self.outstanding() == pruned_prefix(before, now, ks.take(i as int)),
            decreases keys@.len() - i,
        {
            let id = keys[i];
            proof {
                assert(ks.take(i + 1) =~= ks.take(i as int).push(id));
                assert(!ks.take(i as int).contains(id)) by {
                    if ks.take(i as int).contains(id) {
                        let a = choose|a: int| 0 <= a < i && ks.take(i as int)[a] == id;
                        assert(ks[a] == ks[i as int]);
                    }
                }
                assert(ks.contains(id)) by {
                    assert(ks[i as int] == id);
                }
            }
            let ghost prior = self.outstanding();
            proof {
                assert(before.contains_key(id));
                assert(prior.contains_key(id));
                assert(prior[id] == before[id]);
            }
            let expired = match self.requests.get(&id) {
                Some(request) => nanos_between(&now, &request.first_requested) >= MAX_REQUEST_AGE_NANOS,
                None => false,
            };
            proof {
                assert(expired == (nanos_from(before[id].first_requested, now) >= MAX_REQUEST_AGE_NANOS));
            }
            if expired {
                self.requests.remove(&id);
                proof {
                    assert(self.outstanding() =~= prior.remove(id));
                }
            }
            proof {
                let t0 = ks.take(i as int);
                let t1 = ks.take(i + 1);
                assert forall|x: ProofIdentifier| #[trigger] t1.contains(x) <==> (t0.contains(x) || x == id) by {
                    if t1.contains(x) {
                        let a = choose|a: int| 0 <= a < t1.len() && t1[a] == x;
                        if a < i {
                            assert(t0[a] == x);
                        }
                    }
                    if t0.contains(x) {
                        let a = choose|a: int| 0 <= a < t0.len() && t0[a] == x;
                        assert(t1[a] == x);
                    }
                    if x == id {
                        assert(t1[i as int] == x);
                    }
                }
                let target = pruned_prefix(before, now, t1);
                assert forall|x: ProofIdentifier| self.outstanding().contains_key(x) <==> #[trigger] target.contains_key(x) by {
                    assert(t1.contains(x) <==> (t0.contains(x) || x == id));
                }
                assert(self.outstanding() =~= target);
            }
            i = i + 1;
        }
        proof {
            assert(ks.take(i as int) =~= ks);
            assert(self.outstanding() =~= young_requests(before, now));
        }
    }
}

/// The requests of `m` first made less than [`MAX_REQUEST_AGE_NANOS`]
/// before the clock reading `now`, unchanged.
pub open spec fn young_requests(m: Map<ProofIdentifier, RequestView>, now: Instant) -> Map<
    ProofIdentifier,
    RequestView,
> {
    m.restrict(
        m.dom().filter(|id: ProofIdentifier| nanos_from(m[id].first_requested, now) < MAX_REQUEST_AGE_NANOS),
    )
}

/// `m` once the expired requests among `seen` are dropped.
pub open spec fn pruned_prefix(
    m: Map<ProofIdentifier, RequestView>,
    now: Instant,
    seen: Seq<ProofIdentifier>,
) -> Map<ProofIdentifier, RequestView> {
    m.restrict(
        m.dom().filter(
            |id: ProofIdentifier|
                !(seen.contains(id) && nanos_from(m[id].first_requested, now) >= MAX_REQUEST_AGE_NANOS),
        ),
    )
}

impl Default for ProofRequestTracker {
    /// A tracker with no request.
    fn default() -> (r: Self)
        ensures
            r.wf(),
            r.outstanding() == Map::<ProofIdentifier, RequestView>::empty(),
    {
        Self::new()
    }
}

/// The requests after a retry pass has looked at the requests in `seen`
/// (see [`after_retry`]).
pub open spec fn after_retry_prefix(
    before: Map<ProofIdentifier, RequestView>,
    root: Hash256,
    quiet: Set<ProofIdentifier>,
    seen: Seq<ProofIdentifier>,
) -> Map<ProofIdentifier, RequestView> {
    Map::new(
        |id: ProofIdentifier|
            before.contains_key(id) && !(seen.contains(id) && id.block_root == root && quiet.contains(id)
                && before[id].retry_count >= MAX_PROOF_REQUEST_RETRIES),
        |id: ProofIdentifier|
            if seen.contains(id) && id.block_root == root && quiet.contains(id) {
                RequestView { retry_count: before[id].retry_count + 1, ..before[id] }
            } else {
                before[id]
            },
    )
}

} // verus!
