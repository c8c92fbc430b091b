//! Configuration of the proof system. Durations are in milliseconds.
use vstd::prelude::*;
use crate::text::{decimal, push_decimal};

verus! {

/// Configuration for the entire proof system
#[derive(Debug)]
pub struct ProofSystemConfig {
    /// Whether stateless validation is enabled
    pub stateless_validation: bool,
    /// Whether this node generates execution proofs
    pub generate_execution_proofs: bool,
    /// Maximum number of execution payload proofs to store
    pub max_execution_payload_proofs: usize,
    /// Maximum number of execution proof subnets to participate in
    pub max_execution_proof_subnets: u64,
    /// Minimum number of proofs required to consider a block valid
    pub stateless_min_proofs_required: usize,
    /// Proof generation configuration
    pub generation: ProofGenerationConfig,
    /// Proof broadcasting configuration
    pub broadcast: ProofBroadcastConfig,
    /// Proof storage configuration
    pub storage: ProofStorageConfig,
}

impl Default for ProofSystemConfig {
    fn default() -> (r: Self)
        ensures
            !r.stateless_validation,
            !r.generate_execution_proofs,
            r.max_execution_payload_proofs == 10_000,
            r.max_execution_proof_subnets == 8,
            r.stateless_min_proofs_required == 1,
            r.generation.is_default(),
            r.broadcast.is_default(),
            r.storage.is_default(),
    {
        ProofSystemConfig {
            stateless_validation: false,
            generate_execution_proofs: false,
            max_execution_payload_proofs: 10_000,
            max_execution_proof_subnets: 8,
            stateless_min_proofs_required: 1,
            generation: ProofGenerationConfig::default(),
            broadcast: ProofBroadcastConfig::default(),
            storage: ProofStorageConfig::default(),
        }
    }
}

impl ProofSystemConfig {
    /// The first rule the configuration breaks, as a message, if any.
    pub open spec fn spec_validation_error(&self) -> Option<Seq<char>> {
        if self.stateless_min_proofs_required == 0 {
            Some("stateless_min_proofs_required must be at least 1"@)
        } else if self.stateless_min_proofs_required > self.max_execution_proof_subnets {
            Some(
                "stateless_min_proofs_required ("@ + decimal(
                    self.stateless_min_proofs_required as nat,
                ) + ") cannot exceed max_execution_proof_subnets ("@ + decimal(
                    self.max_execution_proof_subnets as nat,
                ) + ")"@,
            )
        } else if self.max_execution_payload_proofs == 0 {
            Some("max_execution_payload_proofs must be greater than 0"@)
        } else {
            None
        }
    }

    /// Checks the configuration: at least one proof required, no more than
    /// there are subnets, and room for at least one stored proof.
    pub fn validate(&self) -> (r: Result<(), String>)
        ensures
            match self.spec_validation_error() {
                None => r is Ok,
                Some(m) => r matches Err(e) && e@ == m,
            },
    {
        if self.stateless_min_proofs_required == 0 {
            return Err(String::from_str("stateless_min_proofs_required must be at least 1"));
        }
        if self.stateless_min_proofs_required as u64 > self.max_execution_proof_subnets {
            let mut s = String::from_str("stateless_min_proofs_required (");
            push_decimal(&mut s, self.stateless_min_proofs_required as u64);
            s.append(") cannot exceed max_execution_proof_subnets (");
            push_decimal(&mut s, self.max_execution_proof_subnets);
            s.append(")");
            return Err(s);
        }
        if self.max_execution_payload_proofs == 0 {
            return Err(String::from_str("max_execution_payload_proofs must be greater than 0"));
        }
        Ok(())
    }

    /// The maximum number of proofs to store.
    pub fn max_proofs(&self) -> (r: usize)
        ensures
            r == self.max_execution_payload_proofs,
    {
        self.max_execution_payload_proofs
    }
}

/// Configuration for proof generation
#[derive(Debug)]
pub struct ProofGenerationConfig {
    /// Maximum concurrent proof generation tasks
    pub max_concurrent_tasks: usize,
    /// Timeout for proof generation
    pub generation_timeout: u64,
    /// Delay ranges for simulated proof generation (milliseconds)
    pub simulation_delay_range: (u64, u64),
    /// Staggered delays for multiple proofs (milliseconds)
    pub staggered_delays: Vec<u64>,
}

impl ProofGenerationConfig {
    /// The default values: 4 tasks, a 60 s timeout, 1 to 3 s of simulated
    /// delay, delays staggered by 5 s up to 20 s.
    pub open spec fn is_default(&self) -> bool {
        &&& self.max_concurrent_tasks == 4
        &&& self.generation_timeout == 60_000
        &&& self.simulation_delay_range == (1000u64, 3000u64)
        &&& self.staggered_delays@ == seq![0u64, 5000, 10000, 15000, 20000]
    }
}

impl Default for ProofGenerationConfig {
    fn default() -> (r: Self)
        ensures
            r.is_default(),
    {
        ProofGenerationConfig {
            max_concurrent_tasks: 4,
            generation_timeout: 60_000,
            simulation_delay_range: (1000, 3000),
            staggered_delays: vec![0, 5000, 10000, 15000, 20000],
        }
    }
}

/// Configuration for proof broadcasting
#[derive(Debug, Clone, Copy)]
pub struct ProofBroadcastConfig {
    /// How often to check for unbroadcast proofs
    pub broadcast_interval: u64,
    /// Maximum number of broadcast attempts per proof
    pub max_broadcast_attempts: u32,
    /// Delay between retries for failed broadcasts
    pub retry_delay: u64,
    /// Number of batches to split broadcasts into
    pub broadcast_batches: usize,
    /// Delay between broadcast batches
    pub batch_interval: u64,
}

impl ProofBroadcastConfig {
    /// The default values: check every second, three attempts, 5 s between
    /// retries, one batch, 100 ms between batches.
    pub open spec fn is_default(&self) -> bool {
        &&& self.broadcast_interval == 1000
        &&& self.max_broadcast_attempts == 3
        &&& self.retry_delay == 5000
        &&& self.broadcast_batches == 1
        &&& self.batch_interval == 100
    }
}

impl Default for ProofBroadcastConfig {
    fn default() -> (r: Self)
        ensures
            r.is_default(),
    {
        ProofBroadcastConfig {
            broadcast_interval: 1000,
            max_broadcast_attempts: 3,
            retry_delay: 5000,
            broadcast_batches: 1,
            batch_interval: 100,
        }
    }
}

/// Configuration for proof storage
#[derive(Debug, Clone, Copy)]
pub struct ProofStorageConfig {
    /// Whether to enable persistent storage (future feature)
    pub persistent_storage: bool,
    /// TTL for orphaned proofs (proofs without blocks)
    pub orphaned_proof_ttl: u64,
    /// How often to run cleanup tasks
    pub cleanup_interval: u64,
    /// Maximum age for proofs before pruning
    pub max_proof_age: u64,
}

impl ProofStorageConfig {
    /// The default values: no persistence, orphans kept 5 minutes, cleanup
    /// every minute, proofs kept an hour.
    pub open spec fn is_default(&self) -> bool {
        &&& !self.persistent_storage
        &&& self.orphaned_proof_ttl == 300_000
        &&& self.cleanup_interval == 60_000
        &&& self.max_proof_age == 3_600_000
    }
}

impl Default for ProofStorageConfig {
    fn default() -> (r: Self)
        ensures
            r.is_default(),
    {
        ProofStorageConfig {
            persistent_storage: false,
            orphaned_proof_ttl: 300_000,
            cleanup_interval: 60_000,
            max_proof_age: 3_600_000,
        }
    }
}

} // verus!
