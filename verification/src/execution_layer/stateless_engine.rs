//! The stateless execution engine: it accepts payloads optimistically and
//! leaves their validation to execution proofs.
use vstd::prelude::*;
use crate::primitives::ExecutionBlockHash;
use super::engine::{EngineError, ExecutionEngine, PayloadStatus};

verus! {

/// Configuration for the stateless execution engine.
#[derive(Debug, Clone)]
pub struct StatelessEngineConfig {
    /// List of execution proof subnet IDs to validate.
    pub execution_proof_subnets: Vec<u64>,
    /// Maximum number of execution proof subnets.
    pub max_execution_proof_subnets: u64,
}

impl Default for StatelessEngineConfig {
    fn default() -> (r: Self)
        ensures
            r.execution_proof_subnets@ == Seq::new(8, |i: int| i as u64),
            r.max_execution_proof_subnets == 8,
    {
        let mut subnets: Vec<u64> = Vec::new();
        let mut i: u64 = 0;
        while i < 8
            invariant
                i <= 8,
                subnets@ == Seq::new(i as nat, |j: int| j as u64),
            decreases 8 - i,
        {
            subnets.push(i);
            i = i + 1;
            proof {
                assert(subnets@ =~= Seq::new(i as nat, |j: int| j as u64));
            }
        }
        StatelessEngineConfig { execution_proof_subnets: subnets, max_execution_proof_subnets: 8 }
    }
}

/// Stateless execution engine that validates using proofs.
pub struct StatelessExecutionEngine {
    /// Configuration for the stateless engine.
    pub config: StatelessEngineConfig,
}

impl StatelessExecutionEngine {
    /// A stateless engine with `config`.
    pub fn new(config: StatelessEngineConfig) -> (r: Self)
        ensures
            r.config == config,
    {
        StatelessExecutionEngine { config }
    }
}

impl ExecutionEngine for StatelessExecutionEngine {
    open spec fn engine_inv(&self) -> bool {
        true
    }

    /// Every payload is accepted optimistically: syncing until proofs arrive.
    fn notify_new_payload(&mut self, block_hash: ExecutionBlockHash) -> (r: Result<PayloadStatus, EngineError>)
        ensures
            r matches Ok(PayloadStatus::Syncing),
    {
        Ok(PayloadStatus::Syncing)
    }

    /// A stateless engine is never synced: it relies on proofs.
    fn is_synced(&mut self) -> (r: bool)
        ensures
            !r,
    {
        false
    }

    /// A stateless engine is never offline: it connects to no client.
    fn is_offline(&mut self) -> (r: bool)
        ensures
            !r,
    {
        false
    }
}

} // verus!
