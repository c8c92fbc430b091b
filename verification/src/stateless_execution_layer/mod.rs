//! The stateless execution layer: validation of execution payloads by proofs
//! from several subnets instead of re-execution.
pub mod config;
pub mod errors;
pub mod payload_validation;

pub use config::{StatelessExecutionLayerConfig, StatelessExecutionLayerConfigBuilder};
pub use errors::{
    ForkchoiceUpdatedResponse, GenerationError, PayloadStatus, StatelessExecutionLayerError,
    VerificationError,
};
