//! Configuration of the stateless execution layer and its builder.
//! Durations are in milliseconds.
use vstd::prelude::*;
use crate::keyed::VecSet;
use crate::text::{decimal, push_decimal};
use crate::types::SubnetId;

verus! {

/// The subnet type of execution proofs.
pub type ExecutionProofSubnetId = SubnetId;

/// Configuration for the Stateless Execution Layer
#[derive(Debug)]
pub struct StatelessExecutionLayerConfig {
    /// Which subnets to subscribe to for verification
    pub subscribed_subnets: VecSet<ExecutionProofSubnetId>,
    /// Minimum proofs required from DIFFERENT subnets for validation
    pub min_proofs_required: usize,
    /// Which subnets to generate proofs for (empty if not generating)
    pub generation_subnets: VecSet<ExecutionProofSubnetId>,
    /// Proof cache size (number of execution block hashes to cache proofs for)
    pub proof_cache_size: usize,
    /// Timeout for proof requests via RPC
    pub proof_request_timeout: u64,
    /// Delay before falling back to RPC (gossip grace period)
    pub gossip_grace_period: u64,
}

/// The message for a generation subnet that is not subscribed.
pub open spec fn not_subscribed_message(subnet: ExecutionProofSubnetId) -> Seq<char> {
    "generation_subnets must be a subset of subscribed_subnets (subnet "@ + decimal(
        subnet.spec_id() as nat,
    ) + " not subscribed)"@
}

impl Default for StatelessExecutionLayerConfig {
    fn default() -> (r: Self)
        ensures
            r.wf(),
            r.subscribed_subnets@ == Set::<ExecutionProofSubnetId>::empty(),
            r.min_proofs_required == 1,
            r.generation_subnets@ == Set::<ExecutionProofSubnetId>::empty(),
            r.proof_cache_size == 1024,
            r.proof_request_timeout == 5000,
            r.gossip_grace_period == 200,
    {
        StatelessExecutionLayerConfig {
            subscribed_subnets: VecSet::new(),
            min_proofs_required: 1,
            generation_subnets: VecSet::new(),
            proof_cache_size: 1024,
            proof_request_timeout: 5000,
            gossip_grace_period: 200,
        }
    }
}

impl StatelessExecutionLayerConfig {
    /// The subnet sets hold distinct subnets.
    pub open spec fn wf(&self) -> bool {
        self.subscribed_subnets.wf() && self.generation_subnets.wf()
    }

    /// Every rule holds: at least one proof required, at least as many
    /// subnets subscribed, only subscribed subnets generated for, and room
    /// for at least one cached block.
    pub open spec fn spec_valid(&self) -> bool {
        &&& self.min_proofs_required >= 1
        &&& self.subscribed_subnets@.len() >= self.min_proofs_required
        &&& self.generation_subnets@.subset_of(self.subscribed_subnets@)
        &&& self.proof_cache_size >= 1
    }

    /// `e` is the message for the first rule, in the order of [`Self::validate`],
    /// that fails: for a generation subnet that is not subscribed, it names
    /// one such subnet. No message fits a valid configuration.
    pub open spec fn spec_validation_error(&self, e: Seq<char>) -> bool {
        if self.min_proofs_required == 0 {
            e == "min_proofs_required must be at least 1"@
        } else if self.subscribed_subnets@.len() < self.min_proofs_required {
            e == "subscribed_subnets ("@ + decimal(self.subscribed_subnets@.len())
                + ") must be >= min_proofs_required ("@ + decimal(self.min_proofs_required as nat)
                + ")"@
        } else if !self.generation_subnets@.subset_of(self.subscribed_subnets@) {
            exists|g: ExecutionProofSubnetId|
                #![trigger self.generation_subnets@.contains(g)]
                self.generation_subnets@.contains(g) && !self.subscribed_subnets@.contains(g) && e
                    == not_subscribed_message(g)
        } else if self.proof_cache_size == 0 {
            e == "proof_cache_size must be at least 1"@
        } else {
            false
        }
    }

    /// Checks the rules in order and reports the first that fails; for a
    /// generation subnet that is not subscribed, the message names one such
    /// subnet.
    #[verifier::loop_isolation(false)]
    pub fn validate(&self) -> (r: Result<(), String>)
        requires
            self.wf(),
        ensures
            r is Ok <==> self.spec_valid(),
            r matches Err(e) ==> self.spec_validation_error(e@),
            self.min_proofs_required == 0 ==> (r matches Err(e) && e@
                == "min_proofs_required must be at least 1"@),
            self.min_proofs_required != 0 && self.subscribed_subnets@.len() < self.min_proofs_required
                ==> (r matches Err(e) && e@ == "subscribed_subnets ("@ + decimal(
                self.subscribed_subnets@.len(),
            ) + ") must be >= min_proofs_required ("@ + decimal(self.min_proofs_required as nat)
                + ")"@),
            self.min_proofs_required != 0 && self.subscribed_subnets@.len() >= self.min_proofs_required
                && !self.generation_subnets@.subset_of(self.subscribed_subnets@) ==> (r matches Err(
                e,
            ) && exists|g: ExecutionProofSubnetId|
                #![trigger self.generation_subnets@.contains(g)]
                self.generation_subnets@.contains(g) && !self.subscribed_subnets@.contains(g) && e@
                    == not_subscribed_message(g)),
            self.min_proofs_required != 0 && self.subscribed_subnets@.len() >= self.min_proofs_required
                && self.generation_subnets@.subset_of(self.subscribed_subnets@)
                && self.proof_cache_size == 0 ==> (r matches Err(e) && e@
                == "proof_cache_size must be at least 1"@),
    {
        if self.min_proofs_required == 0 {
            return Err(String::from_str("min_proofs_required must be at least 1"));
        }
        let subscribed = self.subscribed_subnets.len();
        if subscribed < self.min_proofs_required {
            let mut s = String::from_str("subscribed_subnets (");
            push_decimal(&mut s, subscribed as u64);
            s.append(") must be >= min_proofs_required (");
            push_decimal(&mut s, self.min_proofs_required as u64);
            s.append(")");
            return Err(s);
        }
        let n = self.generation_subnets.len();
        let mut i: usize = 0;
        while i < n
            invariant
                i <= n,
                n == self.generation_subnets.spec_items().len(),
                forall|j: int| 0 <= j < i ==> self.subscribed_subnets@.contains(
                    #[trigger] self.generation_subnets.spec_items()[j],
                ),
            decreases n - i,
        {
            let subnet = self.generation_subnets.item_at(i);
            if !self.subscribed_subnets.contains(&subnet) {
                let mut s = String::from_str(
                    "generation_subnets must be a subset of subscribed_subnets (subnet ",
                );
                push_decimal(&mut s, subnet.id());
                s.append(" not subscribed)");
                proof {
                    assert(self.generation_subnets.spec_items().contains(subnet));
                    assert(s@ =~= not_subscribed_message(subnet));
                }
                return Err(s);
            }
            i = i + 1;
        }
        proof {
            assert forall|g: ExecutionProofSubnetId| self.generation_subnets@.contains(g) implies self.subscribed_subnets@.contains(g) by {
                let j = choose|j: int| 0 <= j < self.generation_subnets.spec_items().len()
                    && self.generation_subnets.spec_items()[j] == g;
            }
        }
        if self.proof_cache_size == 0 {
            return Err(String::from_str("proof_cache_size must be at least 1"));
        }
        Ok(())
    }

    /// A builder with nothing set.
    pub fn builder() -> (r: StatelessExecutionLayerConfigBuilder)
        ensures
            r.wf(),
            r.subscribed_subnets@ == Set::<ExecutionProofSubnetId>::empty(),
            r.generation_subnets@ == Set::<ExecutionProofSubnetId>::empty(),
            r.min_proofs_required is None,
            r.proof_cache_size is None,
            r.proof_request_timeout is None,
            r.gossip_grace_period is None,
    {
        StatelessExecutionLayerConfigBuilder::default()
    }
}

/// Builder for StatelessExecutionLayerConfig
#[derive(Debug)]
pub struct StatelessExecutionLayerConfigBuilder {
    pub subscribed_subnets: VecSet<ExecutionProofSubnetId>,
    pub min_proofs_required: Option<usize>,
    pub generation_subnets: VecSet<ExecutionProofSubnetId>,
    pub proof_cache_size: Option<usize>,
    pub proof_request_timeout: Option<u64>,
    pub gossip_grace_period: Option<u64>,
}

impl Default for StatelessExecutionLayerConfigBuilder {
    fn default() -> (r: Self)
        ensures
            r.wf(),
            r.subscribed_subnets@ == Set::<ExecutionProofSubnetId>::empty(),
            r.generation_subnets@ == Set::<ExecutionProofSubnetId>::empty(),
            r.min_proofs_required is None,
            r.proof_cache_size is None,
            r.proof_request_timeout is None,
            r.gossip_grace_period is None,
    {
        StatelessExecutionLayerConfigBuilder {
            subscribed_subnets: VecSet::new(),
            min_proofs_required: None,
            generation_subnets: VecSet::new(),
            proof_cache_size: None,
            proof_request_timeout: None,
            gossip_grace_period: None,
        }
    }
}

impl StatelessExecutionLayerConfigBuilder {
    /// The subnet sets hold distinct subnets.
    pub open spec fn wf(&self) -> bool {
        self.subscribed_subnets.wf() && self.generation_subnets.wf()
    }

    /// The configuration the builder makes: unset values take their
    /// defaults (one proof, 1024 cached blocks, 5 s timeout, 200 ms grace).
    pub open spec fn spec_min_proofs(&self) -> usize {
        match self.min_proofs_required {
            Some(m) => m,
            None => 1,
        }
    }

    pub open spec fn spec_cache_size(&self) -> usize {
        match self.proof_cache_size {
            Some(c) => c,
            None => 1024,
        }
    }

    /// Sets the subnets to subscribe to.
    pub fn subscribed_subnets(self, subnets: VecSet<ExecutionProofSubnetId>) -> (r: Self)
        ensures
            r == (StatelessExecutionLayerConfigBuilder { subscribed_subnets: subnets, ..self }),
    {
        StatelessExecutionLayerConfigBuilder { subscribed_subnets: subnets, ..self }
    }

    /// Adds a subnet to subscribe to.
    pub fn add_subscribed_subnet(self, subnet: ExecutionProofSubnetId) -> (r: Self)
        requires
            self.wf(),
        ensures
            r.wf(),
            r.subscribed_subnets@ == self.subscribed_subnets@.insert(subnet),
            r.generation_subnets == self.generation_subnets,
            r.min_proofs_required == self.min_proofs_required,
            r.proof_cache_size == self.proof_cache_size,
            r.proof_request_timeout == self.proof_request_timeout,
            r.gossip_grace_period == self.gossip_grace_period,
    {
        let mut b = self;
        b.subscribed_subnets.insert(subnet);
        b
    }

    /// Sets the minimum number of proofs.
    pub fn min_proofs_required(self, min: usize) -> (r: Self)
        ensures
            r == (StatelessExecutionLayerConfigBuilder { min_proofs_required: Some(min), ..self }),
    {
        StatelessExecutionLayerConfigBuilder { min_proofs_required: Some(min), ..self }
    }

    /// Sets the subnets to generate proofs for.
    pub fn generation_subnets(self, subnets: VecSet<ExecutionProofSubnetId>) -> (r: Self)
        ensures
            r == (StatelessExecutionLayerConfigBuilder { generation_subnets: subnets, ..self }),
    {
        StatelessExecutionLayerConfigBuilder { generation_subnets: subnets, ..self }
    }

    /// Adds a subnet to generate proofs for.
    pub fn add_generation_subnet(self, subnet: ExecutionProofSubnetId) -> (r: Self)
        requires
            self.wf(),
        ensures
            r.wf(),
            r.generation_subnets@ == self.generation_subnets@.insert(subnet),
            r.subscribed_subnets == self.subscribed_subnets,
            r.min_proofs_required == self.min_proofs_required,
            r.proof_cache_size == self.proof_cache_size,
            r.proof_request_timeout == self.proof_request_timeout,
            r.gossip_grace_period == self.gossip_grace_period,
    {
        let mut b = self;
        b.generation_subnets.insert(subnet);
        b
    }

    /// Sets the proof cache size.
    pub fn proof_cache_size(self, size: usize) -> (r: Self)
        ensures
            r == (StatelessExecutionLayerConfigBuilder { proof_cache_size: Some(size), ..self }),
    {
        StatelessExecutionLayerConfigBuilder { proof_cache_size: Some(size), ..self }
    }

    /// Sets the proof request timeout.
    pub fn proof_request_timeout(self, timeout: u64) -> (r: Self)
        ensures
            r == (StatelessExecutionLayerConfigBuilder { proof_request_timeout: Some(timeout), ..self }),
    {
        StatelessExecutionLayerConfigBuilder { proof_request_timeout: Some(timeout), ..self }
    }

    /// Sets the gossip grace period.
    pub fn gossip_grace_period(self, period: u64) -> (r: Self)
        ensures
            r == (StatelessExecutionLayerConfigBuilder { gossip_grace_period: Some(period), ..self }),
    {
        StatelessExecutionLayerConfigBuilder { gossip_grace_period: Some(period), ..self }
    }

    /// The configuration, with defaults for unset values, if it is valid;
    /// otherwise the message [`StatelessExecutionLayerConfig::validate`] gives
    /// for it.
    pub fn build(self) -> (r: Result<StatelessExecutionLayerConfig, String>)
        requires
            self.wf(),
        ensures
            match r {
                Ok(c) => {
                    &&& c.spec_valid()
                    &&& c.subscribed_subnets@ == self.subscribed_subnets@
                    &&& c.generation_subnets@ == self.generation_subnets@
                    &&& c.min_proofs_required == self.spec_min_proofs()
                    &&& c.proof_cache_size == self.spec_cache_size()
                    &&& c.proof_request_timeout == (match self.proof_request_timeout {
                        Some(t) => t,
                        None => 5000,
                    })
                    &&& c.gossip_grace_period == (match self.gossip_grace_period {
                        Some(g) => g,
                        None => 200,
                    })
                },
                Err(e) => (StatelessExecutionLayerConfig {
                    subscribed_subnets: self.subscribed_subnets,
                    min_proofs_required: self.spec_min_proofs(),
                    generation_subnets: self.generation_subnets,
                    proof_cache_size: self.spec_cache_size(),
                    proof_request_timeout: 0,
                    gossip_grace_period: 0,
                }).spec_validation_error(e@),
            },
    {
        let config = StatelessExecutionLayerConfig {
            subscribed_subnets: self.subscribed_subnets,
            min_proofs_required: match self.min_proofs_required {
                Some(m) => m,
                None => 1,
            },
            generation_subnets: self.generation_subnets,
            proof_cache_size: match self.proof_cache_size {
                Some(c) => c,
                None => 1024,
            },
            proof_request_timeout: match self.proof_request_timeout {
                Some(t) => t,
                None => 5000,
            },
            gossip_grace_period: match self.gossip_grace_period {
                Some(g) => g,
                None => 200,
            },
        };
        match config.validate() {
            Ok(()) => Ok(config),
            Err(e) => Err(e),
        }
    }
}

} // verus!
