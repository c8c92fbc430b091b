//! Peers, as the proof-request logic tells them apart.
use vstd::prelude::*;
use crate::keyed::MapKey;

verus! {

/// A peer of the node, known by a number the networking layer assigns.
#[derive(Clone, Copy, PartialEq, Eq, Structural, Debug, Hash)]
pub struct PeerId(pub u64);

impl MapKey for PeerId {
    fn key_eq(&self, other: &Self) -> (r: bool) {
        self.0 == other.0
    }
}

} // verus!
