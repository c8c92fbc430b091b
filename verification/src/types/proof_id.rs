//! Proof identifiers and the gossip subnets they map to.
use vstd::prelude::*;
use crate::error::Error;
use crate::text::{decimal, push_decimal};

verus! {

/// Default maximum number of execution proof subnets
pub const MAX_EXECUTION_PROOF_SUBNETS: u64 = 8;

/// Identifier for different types of proofs that can be received for execution payloads
/// Each proof ID maps directly to a subnet number for gossip distribution
#[derive(Clone, Copy, PartialEq, Eq, Structural, Debug, Hash)]
pub struct ProofId(pub u64);

impl ProofId {
    /// Execution witness proof (subnet 0): the standard execution payload
    /// witness proof.
    pub fn execution_witness() -> (r: ProofId)
        ensures
            r == ProofId(0),
    {
        ProofId(0)
    }

    /// A proof ID for a specific zkVM; each has its own subnet.
    pub fn custom(id: u64) -> (r: ProofId)
        ensures
            r == ProofId(id),
    {
        ProofId(id)
    }

    /// The numeric ID.
    pub fn id(&self) -> (r: u64)
        ensures
            r == self.0,
    {
        self.0
    }

    /// The gossip subnet of this proof type: the subnet with the same number.
    /// Only IDs below [`MAX_EXECUTION_PROOF_SUBNETS`] have one.
    pub fn subnet_id(&self) -> (r: SubnetId)
        requires
            self.0 < MAX_EXECUTION_PROOF_SUBNETS,
        ensures
            r.spec_id() == self.0,
    {
        match SubnetId::new(self.0) {
            Ok(s) => s,
            Err(_) => {
                proof {
                    assert(false);
                }
                SubnetId::new_unchecked(self.0)
            },
        }
    }

    /// The gossip topic name: `execution_proof_` and the ID.
    pub fn subnet_topic(&self) -> (r: String)
        ensures
            r@ == "execution_proof_"@ + decimal(self.0 as nat),
    {
        let mut s = String::from_str("execution_proof_");
        push_decimal(&mut s, self.0);
        s
    }

    /// A string identifier for this proof type.
    pub open spec fn spec_identifier(&self) -> Seq<char> {
        if self.0 == 0 {
            "execution_witness"@
        } else {
            "custom"@
        }
    }

    /// A string identifier for this proof type.
    pub fn identifier(&self) -> (r: &'static str)
        ensures
            r@ == self.spec_identifier(),
    {
        if self.0 == 0 {
            "execution_witness"
        } else {
            "custom"
        }
    }

    /// A human-readable description of the proof type.
    pub open spec fn spec_description(&self) -> Seq<char> {
        if self.0 == 0 {
            "Execution witness proof"@
        } else {
            "Custom proof type "@ + decimal(self.0 as nat)
        }
    }

    /// A human-readable description of the proof type.
    pub fn description(&self) -> (r: String)
        ensures
            r@ == self.spec_description(),
    {
        if self.0 == 0 {
            String::from_str("Execution witness proof")
        } else {
            let mut s = String::from_str("Custom proof type ");
            push_decimal(&mut s, self.0);
            s
        }
    }
}

/// A gossip subnet number, below [`MAX_EXECUTION_PROOF_SUBNETS`] when made
/// by [`SubnetId::new`].
#[derive(Clone, Copy, PartialEq, Eq, Structural, Debug, Hash, PartialOrd, Ord)]
pub struct SubnetId(u64);

impl SubnetId {
    /// The subnet number.
    pub closed spec fn spec_id(&self) -> u64 {
        self.0
    }

    /// The subnet with number `id`, if `id` is below
    /// [`MAX_EXECUTION_PROOF_SUBNETS`]; otherwise `InvalidSubnetId(id)`.
    pub fn new(id: u64) -> (r: Result<SubnetId, Error>)
        ensures
            id < MAX_EXECUTION_PROOF_SUBNETS ==> (r matches Ok(s) && s.spec_id() == id),
            id >= MAX_EXECUTION_PROOF_SUBNETS ==> (r matches Err(Error::InvalidSubnetId(x)) && x == id),
    {
        if id < MAX_EXECUTION_PROOF_SUBNETS {
            Ok(SubnetId(id))
        } else {
            Err(Error::InvalidSubnetId(id))
        }
    }

    /// The subnet with number `id`, unchecked.
    pub fn new_unchecked(id: u64) -> (r: SubnetId)
        ensures
            r.spec_id() == id,
    {
        SubnetId(id)
    }

    /// The subnet number.
    pub fn id(&self) -> (r: u64)
        ensures
            r == self.spec_id(),
    {
        self.0
    }

    /// The proof ID with the same number.
    pub fn as_proof_id(&self) -> (r: ProofId)
        ensures
            r == ProofId(self.spec_id()),
    {
        ProofId(self.0)
    }

    /// Two subnets are equal exactly when their numbers are.
    pub proof fn lemma_eq_by_id(a: SubnetId, b: SubnetId)
        ensures
            (a == b) <==> (a.spec_id() == b.spec_id()),
    {
    }
}

impl From<SubnetId> for u64 {
    fn from(subnet: SubnetId) -> (r: u64)
        ensures
            r == subnet.spec_id(),
    {
        subnet.0
    }
}

impl vstd::std_specs::convert::FromSpecImpl<SubnetId> for u64 {
    open spec fn obeys_from_spec() -> bool {
        true
    }

    open spec fn from_spec(v: SubnetId) -> u64 {
        v.spec_id()
    }
}

impl TryFrom<u64> for SubnetId {
    type Error = Error;

    fn try_from(value: u64) -> (r: Result<SubnetId, Error>) {
        SubnetId::new(value)
    }
}

impl vstd::std_specs::convert::TryFromSpecImpl<u64> for SubnetId {
    open spec fn obeys_try_from_spec() -> bool {
        true
    }

    closed spec fn try_from_spec(v: u64) -> Result<SubnetId, Error> {
        if v < MAX_EXECUTION_PROOF_SUBNETS {
            Ok(SubnetId(v))
        } else {
            Err(Error::InvalidSubnetId(v))
        }
    }
}

/// Converting a number into a subnet accepts exactly the numbers below
/// [`MAX_EXECUTION_PROOF_SUBNETS`], as [`SubnetId::new`] does, and refuses
/// the others with `InvalidSubnetId`.
pub proof fn subnet_try_from_agrees_with_new(v: u64)
    ensures
        v < MAX_EXECUTION_PROOF_SUBNETS ==> (<SubnetId as vstd::std_specs::convert::TryFromSpec<
            u64,
        >>::try_from_spec(v) matches Ok(s) && s.spec_id() == v),
        v >= MAX_EXECUTION_PROOF_SUBNETS ==> (<SubnetId as vstd::std_specs::convert::TryFromSpec<
            u64,
        >>::try_from_spec(v) matches Err(Error::InvalidSubnetId(x)) && x == v),
{
}

/// A proof ID and the subnet it maps to carry the same number, both ways.
pub proof fn proof_id_subnet_round_trip(id: ProofId, subnet: SubnetId)
    requires
        id.0 < MAX_EXECUTION_PROOF_SUBNETS,
        subnet.spec_id() == id.0,
    ensures
        ProofId(subnet.spec_id()) == id,
{
}

} // verus!
