//! Identifies each proof subnet by an integer identifier.
use vstd::prelude::*;
use crate::text::decimal;

verus! {

/// The number of proof subnets.
pub const PROOF_SUBNET_COUNT: u64 = 8;

/// The proof systems, each with a dedicated subnet.
#[derive(Clone, Copy, PartialEq, Eq, Structural, Debug, Hash)]
pub enum ProofType {
    SP1Proof,
    Risc0Proof,
    ExecutionWitness,
}

impl ProofType {
    /// The subnet number of the proof system.
    pub open spec fn spec_number(&self) -> u64 {
        match self {
            ProofType::SP1Proof => 0,
            ProofType::Risc0Proof => 1,
            ProofType::ExecutionWitness => 2,
        }
    }

    /// The subnet number of the proof system.
    pub fn as_u64(&self) -> (r: u64)
        ensures
            r == self.spec_number(),
    {
        match self {
            ProofType::SP1Proof => 0,
            ProofType::Risc0Proof => 1,
            ProofType::ExecutionWitness => 2,
        }
    }
}

/// A proof subnet, by number.
#[derive(Clone, Copy, PartialEq, Eq, Structural, Debug, Hash)]
pub struct ProofSubnetId(pub u64);

/// The text of subnet number `i`: its decimal digits below
/// [`PROOF_SUBNET_COUNT`], otherwise a note that it is out of range.
pub open spec fn spec_subnet_text(i: u64) -> Seq<char> {
    if i < PROOF_SUBNET_COUNT {
        decimal(i as nat)
    } else {
        "proof subnet id out of range"@
    }
}

/// The text of subnet number `i` (see [`spec_subnet_text`]).
pub fn proof_subnet_id_to_string(i: u64) -> (r: &'static str)
    ensures
        r@ == spec_subnet_text(i),
{
    proof {
        reveal_strlit("0");
        reveal_strlit("1");
        reveal_strlit("2");
        reveal_strlit("3");
        reveal_strlit("4");
        reveal_strlit("5");
        reveal_strlit("6");
        reveal_strlit("7");
    }
    if i == 0 { "0" }
    else if i == 1 { "1" }
    else if i == 2 { "2" }
    else if i == 3 { "3" }
    else if i == 4 { "4" }
    else if i == 5 { "5" }
    else if i == 6 { "6" }
    else if i == 7 { "7" }
    else { "proof subnet id out of range" }
}

impl ProofSubnetId {
    /// The subnet with number `id` (any number).
    pub fn new(id: u64) -> (r: Self)
        ensures
            r.0 == id,
    {
        ProofSubnetId(id)
    }

    /// The subnet of a proof system.
    pub fn for_proof_type(proof_type: ProofType) -> (r: Self)
        ensures
            r.0 == proof_type.spec_number(),
    {
        Self::new(proof_type.as_u64())
    }

    /// The subnet of SP1 zkVM proofs (subnet 0).
    pub fn sp1() -> (r: Self)
        ensures
            r.0 == 0,
    {
        Self::new(0)
    }

    /// The subnet of Risc0 zkVM proofs (subnet 1).
    pub fn risc0() -> (r: Self)
        ensures
            r.0 == 1,
    {
        Self::new(1)
    }

    /// The subnet of execution witnesses (subnet 2).
    pub fn execution_witness() -> (r: Self)
        ensures
            r.0 == 2,
    {
        Self::new(2)
    }

    /// The subnet number.
    pub fn id(&self) -> (r: u64)
        ensures
            r == self.0,
    {
        self.0
    }

    /// The text of the subnet number (see [`spec_subnet_text`]).
    pub fn as_str(&self) -> (r: &'static str)
        ensures
            r@ == spec_subnet_text(self.0),
    {
        proof_subnet_id_to_string(self.0)
    }
}

impl From<u64> for ProofSubnetId {
    fn from(x: u64) -> (r: Self)
        ensures
            r.0 == x,
    {
        ProofSubnetId(x)
    }
}

impl vstd::std_specs::convert::FromSpecImpl<u64> for ProofSubnetId {
    open spec fn obeys_from_spec() -> bool {
        true
    }

    open spec fn from_spec(v: u64) -> ProofSubnetId {
        ProofSubnetId(v)
    }
}

impl From<ProofSubnetId> for u64 {
    fn from(x: ProofSubnetId) -> (r: u64)
        ensures
            r == x.0,
    {
        x.0
    }
}

impl vstd::std_specs::convert::FromSpecImpl<ProofSubnetId> for u64 {
    open spec fn obeys_from_spec() -> bool {
        true
    }

    open spec fn from_spec(v: ProofSubnetId) -> u64 {
        v.0
    }
}

} // verus!
