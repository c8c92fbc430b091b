//! The execution engine interface and the values it exchanges.
use vstd::prelude::*;
use crate::primitives::ExecutionBlockHash;

verus! {

/// The status an execution engine reports for a payload.
#[derive(Debug)]
pub enum PayloadStatus {
    Valid,
    Invalid { latest_valid_hash: Option<ExecutionBlockHash>, validation_error: Option<String> },
    Syncing,
    Accepted,
    InvalidBlockHash { validation_error: Option<String> },
}

impl PayloadStatus {
    /// A copy of the status.
    pub fn copy(&self) -> (r: Self)
        ensures
            r == *self,
    {
        match self {
            PayloadStatus::Valid => PayloadStatus::Valid,
            PayloadStatus::Invalid { latest_valid_hash, validation_error } => PayloadStatus::Invalid {
                latest_valid_hash: *latest_valid_hash,
                validation_error: match validation_error {
                    Some(e) => Some(e.clone()),
                    None => None,
                },
            },
            PayloadStatus::Syncing => PayloadStatus::Syncing,
            PayloadStatus::Accepted => PayloadStatus::Accepted,
            PayloadStatus::InvalidBlockHash { validation_error } => PayloadStatus::InvalidBlockHash {
                validation_error: match validation_error {
                    Some(e) => Some(e.clone()),
                    None => None,
                },
            },
        }
    }
}

/// Errors of an execution engine.
#[derive(Debug)]
pub enum EngineError {
    /// The engine is offline.
    Offline,
    /// The engine answered with an error.
    Api { error: String },
}

/// The Engine API methods an execution engine supports.
#[derive(Debug, Clone, Copy, PartialEq, Eq, Structural)]
pub struct EngineCapabilities {
    pub new_payload_v1: bool,
    pub new_payload_v2: bool,
    pub new_payload_v3: bool,
    pub new_payload_v4: bool,
    pub new_payload_v5: bool,
    pub forkchoice_updated_v1: bool,
    pub forkchoice_updated_v2: bool,
    pub forkchoice_updated_v3: bool,
    pub get_payload_bodies_by_hash_v1: bool,
    pub get_payload_bodies_by_range_v1: bool,
    pub get_payload_v1: bool,
    pub get_payload_v2: bool,
    pub get_payload_v3: bool,
    pub get_payload_v4: bool,
    pub get_payload_v5: bool,
    pub get_client_version_v1: bool,
    pub get_blobs_v1: bool,
    pub get_blobs_v2: bool,
}

impl EngineCapabilities {
    /// Every method supported.
    pub open spec fn all(&self) -> bool {
        &&& self.new_payload_v1 && self.new_payload_v2 && self.new_payload_v3
        &&& self.new_payload_v4 && self.new_payload_v5
        &&& self.forkchoice_updated_v1 && self.forkchoice_updated_v2 && self.forkchoice_updated_v3
        &&& self.get_payload_bodies_by_hash_v1 && self.get_payload_bodies_by_range_v1
        &&& self.get_payload_v1 && self.get_payload_v2 && self.get_payload_v3
        &&& self.get_payload_v4 && self.get_payload_v5
        &&& self.get_client_version_v1 && self.get_blobs_v1 && self.get_blobs_v2
    }

    /// Every method supported.
    pub fn all_supported() -> (r: Self)
        ensures
            r.all(),
    {
        EngineCapabilities {
            new_payload_v1: true,
            new_payload_v2: true,
            new_payload_v3: true,
            new_payload_v4: true,
            new_payload_v5: true,
            forkchoice_updated_v1: true,
            forkchoice_updated_v2: true,
            forkchoice_updated_v3: true,
            get_payload_bodies_by_hash_v1: true,
            get_payload_bodies_by_range_v1: true,
            get_payload_v1: true,
            get_payload_v2: true,
            get_payload_v3: true,
            get_payload_v4: true,
            get_payload_v5: true,
            get_client_version_v1: true,
            get_blobs_v1: true,
            get_blobs_v2: true,
        }
    }
}

/// An execution engine: it checks new payloads and reports whether it is
/// synced and online.
pub trait ExecutionEngine {
    /// The engine's own consistency, which every call keeps.
    spec fn engine_inv(&self) -> bool;

    /// Processes a new execution payload, identified by its block hash.
    fn notify_new_payload(&mut self, block_hash: ExecutionBlockHash) -> (r: Result<PayloadStatus, EngineError>)
        requires
            old(self).engine_inv(),
        ensures
            final(self).engine_inv(),
    ;

    /// Whether the engine is synced.
    fn is_synced(&mut self) -> (r: bool)
        requires
            old(self).engine_inv(),
        ensures
            final(self).engine_inv(),
    ;

    /// Whether the engine is offline.
    fn is_offline(&mut self) -> (r: bool)
        requires
            old(self).engine_inv(),
        ensures
            final(self).engine_inv(),
    ;
}

} // verus!
