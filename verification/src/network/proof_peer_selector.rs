//! Choosing peers to request execution proofs from: any connected peer not
//! asked yet, picked at random for load balancing.
use vstd::prelude::*;
use vstd::multiset::Multiset;
use rand::seq::{IndexedRandom, SliceRandom};
use crate::consensus::execution_proof::ExecutionProofSubnetId;
use crate::keyed::VecSet;
use super::peer::PeerId;

verus! {

/// One element of `peers` chosen uniformly at random with
/// `rand::seq::IndexedRandom::choose` and the thread's generator; none when
/// `peers` is empty. Which element is chosen is left open.
#[verifier::external_body]
fn choose_peer(peers: &Vec<PeerId>) -> (r: Option<PeerId>)
    ensures
        r is None <==> peers@.len() == 0,
        r is Some ==> peers@.contains(r->0),
{
    peers.choose(&mut rand::rng()).copied()
}

/// Puts `peers` in a random order with `rand::seq::SliceRandom::shuffle` and
/// the thread's generator: the same peers, each as often as before.
#[verifier::external_body]
fn shuffle_peers(peers: &mut Vec<PeerId>)
    ensures
        final(peers)@.to_multiset() == old(peers)@.to_multiset(),
        final(peers)@.len() == old(peers)@.len(),
{
    peers.shuffle(&mut rand::rng());
}

/// The connected peers not in `excluded`, in the order given.
pub open spec fn available(connected: Seq<PeerId>, excluded: Set<PeerId>) -> Seq<PeerId> {
    connected.filter(|p: PeerId| !excluded.contains(p))
}

/// The connected peers not in `excluded`, in the order given.
fn available_peers(connected: &Vec<PeerId>, excluded_peers: &VecSet<PeerId>) -> (r: Vec<PeerId>)
    requires
        excluded_peers.wf(),
    ensures
        r@ == available(connected@, excluded_peers@),
{
    let mut out: Vec<PeerId> = Vec::new();
    let mut i: usize = 0;
    while i < connected.len()
        invariant
            excluded_peers.wf(),
            i <= connected@.len(),
            out@ == available(connected@.take(i as int), excluded_peers@),
        decreases connected@.len() - i,
    {
        proof {
            reveal(Seq::filter);
            assert(connected@.take(i + 1).drop_last() =~= connected@.take(i as int));
        }
        if !excluded_peers.contains(&connected[i]) {
            out.push(connected[i]);
        }
        i = i + 1;
    }
    proof {
        assert(connected@.take(i as int) =~= connected@);
    }
    out
}

/// A peer to request proofs from: one of the connected peers not yet asked,
/// at random; none if there is no such peer. The subnets are not consulted.
pub fn select_proof_peer(
    connected: &Vec<PeerId>,
    _subnet_ids: &[ExecutionProofSubnetId],
    excluded_peers: &VecSet<PeerId>,
) -> (r: Option<PeerId>)
    requires
        excluded_peers.wf(),
    ensures
        available(connected@, excluded_peers@).len() == 0 ==> r is None,
        available(connected@, excluded_peers@).len() > 0 ==> (r matches Some(p) && available(
            connected@,
            excluded_peers@,
        ).contains(p)),
{
    let peers = available_peers(connected, excluded_peers);
    if peers.len() == 0 {
        return None;
    }
    choose_peer(&peers)
}

/// Up to `count` peers to request proofs from concurrently: the connected
/// peers not yet asked, in random order, cut to `count`.
pub fn select_multiple_proof_peers(
    connected: &Vec<PeerId>,
    _subnet_ids: &[ExecutionProofSubnetId],
    excluded_peers: &VecSet<PeerId>,
    count: usize,
) -> (r: Vec<PeerId>)
    requires
        excluded_peers.wf(),
    ensures
        r@.len() == (if available(connected@, excluded_peers@).len() < count {
            available(connected@, excluded_peers@).len()
        } else {
            count as nat
        }),
        r@.to_multiset().subset_of(available(connected@, excluded_peers@).to_multiset()),
{
    let mut peers = available_peers(connected, excluded_peers);
    if peers.len() == 0 {
        let none: Vec<PeerId> = Vec::new();
        proof {
            broadcast use vstd::multiset::group_multiset_axioms;

            assert(none@.to_multiset() =~= Multiset::<PeerId>::empty()) by {
                none@.to_multiset_ensures();
            }
        }
        return none;
    }
    let ghost before = peers@;
    shuffle_peers(&mut peers);
    let ghost shuffled = peers@;
    let n = if peers.len() < count {
        peers.len()
    } else {
        count
    };
    peers.truncate(n);
    proof {
        broadcast use vstd::multiset::group_multiset_axioms;

        assert(peers@ =~= shuffled.take(n as int));
        assert(shuffled =~= shuffled.take(n as int) + shuffled.skip(n as int));
        vstd::seq_lib::lemma_multiset_commutative(shuffled.take(n as int), shuffled.skip(n as int));
    }
    peers
}

} // verus!
