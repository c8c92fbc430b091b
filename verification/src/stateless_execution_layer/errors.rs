//! Errors and results of the stateless execution layer.
use vstd::prelude::*;
use crate::text::{decimal, push_decimal};
use super::config::ExecutionProofSubnetId;

verus! {

/// Errors that can occur during proof generation
#[derive(Debug)]
pub enum GenerationError {
    GenerationFailed(String),
    MissingWitnessData(String),
    InvalidWitness(String),
    Timeout,
    InsufficientResources(String),
    Internal(String),
}

impl GenerationError {
    /// The error's message.
    pub open spec fn spec_message(&self) -> Seq<char> {
        match self {
            GenerationError::GenerationFailed(m) => "Proof generation failed: "@ + m@,
            GenerationError::MissingWitnessData(m) => "Missing execution witness data: "@ + m@,
            GenerationError::InvalidWitness(m) => "Invalid execution witness: "@ + m@,
            GenerationError::Timeout => "Proof generation timeout"@,
            GenerationError::InsufficientResources(m) => "Insufficient resources: "@ + m@,
            GenerationError::Internal(m) => "Internal error: "@ + m@,
        }
    }

    /// The error's message.
    pub fn message(&self) -> (s: String)
        ensures
            s@ == self.spec_message(),
    {
        let (prefix, detail): (&str, Option<&String>) = match self {
            GenerationError::GenerationFailed(m) => ("Proof generation failed: ", Some(m)),
            GenerationError::MissingWitnessData(m) => ("Missing execution witness data: ", Some(m)),
            GenerationError::InvalidWitness(m) => ("Invalid execution witness: ", Some(m)),
            GenerationError::Timeout => ("Proof generation timeout", None),
            GenerationError::InsufficientResources(m) => ("Insufficient resources: ", Some(m)),
            GenerationError::Internal(m) => ("Internal error: ", Some(m)),
        };
        let mut s = String::from_str(prefix);
        match detail {
            Some(m) => s.append(m.as_str()),
            None => {},
        }
        proof {
            reveal_strlit("Proof generation timeout");
        }
        s
    }
}

/// Errors that can occur during proof verification
#[derive(Debug)]
pub enum VerificationError {
    VerificationFailed(String),
    InvalidProofFormat(String),
    UnsupportedSubnet(ExecutionProofSubnetId),
    ProofSizeMismatch { expected: usize, actual: usize },
    Internal(String),
}

impl VerificationError {
    /// The error's message.
    pub open spec fn spec_message(&self) -> Seq<char> {
        match self {
            VerificationError::VerificationFailed(m) => "Proof verification failed: "@ + m@,
            VerificationError::InvalidProofFormat(m) => "Invalid proof format: "@ + m@,
            VerificationError::UnsupportedSubnet(s) => "Unsupported subnet: "@ + decimal(
                s.spec_id() as nat,
            ),
            VerificationError::ProofSizeMismatch { expected, actual } => "Proof size mismatch: expected "@
                + decimal(*expected as nat) + ", got "@ + decimal(*actual as nat),
            VerificationError::Internal(m) => "Internal error: "@ + m@,
        }
    }

    /// The error's message.
    pub fn message(&self) -> (s: String)
        ensures
            s@ == self.spec_message(),
    {
        match self {
            VerificationError::VerificationFailed(m) => {
                let mut s = String::from_str("Proof verification failed: ");
                s.append(m.as_str());
                s
            },
            VerificationError::InvalidProofFormat(m) => {
                let mut s = String::from_str("Invalid proof format: ");
                s.append(m.as_str());
                s
            },
            VerificationError::UnsupportedSubnet(subnet) => {
                let mut s = String::from_str("Unsupported subnet: ");
                push_decimal(&mut s, subnet.id());
                s
            },
            VerificationError::ProofSizeMismatch { expected, actual } => {
                let mut s = String::from_str("Proof size mismatch: expected ");
                push_decimal(&mut s, *expected as u64);
                s.append(", got ");
                push_decimal(&mut s, *actual as u64);
                s
            },
            VerificationError::Internal(m) => {
                let mut s = String::from_str("Internal error: ");
                s.append(m.as_str());
                s
            },
        }
    }
}

/// Errors that can occur in the StatelessExecutionLayer
#[derive(Debug)]
pub enum StatelessExecutionLayerError {
    InsufficientProofs { required: usize, verified: usize },
    VerificationFailed(String),
    GenerationFailed(String),
    ConfigError(String),
    Internal(String),
}

impl StatelessExecutionLayerError {
    /// The error's message.
    pub open spec fn spec_message(&self) -> Seq<char> {
        match self {
            StatelessExecutionLayerError::InsufficientProofs { required, verified } => "Insufficient proofs: required "@
                + decimal(*required as nat) + ", verified "@ + decimal(*verified as nat),
            StatelessExecutionLayerError::VerificationFailed(m) => "Proof verification failed: "@ + m@,
            StatelessExecutionLayerError::GenerationFailed(m) => "Proof generation failed: "@ + m@,
            StatelessExecutionLayerError::ConfigError(m) => "Configuration error: "@ + m@,
            StatelessExecutionLayerError::Internal(m) => "Internal error: "@ + m@,
        }
    }

    /// The error's message.
    pub fn message(&self) -> (s: String)
        ensures
            s@ == self.spec_message(),
    {
        match self {
            StatelessExecutionLayerError::InsufficientProofs { required, verified } => {
                let mut s = String::from_str("Insufficient proofs: required ");
                push_decimal(&mut s, *required as u64);
                s.append(", verified ");
                push_decimal(&mut s, *verified as u64);
                s
            },
            StatelessExecutionLayerError::VerificationFailed(m) => {
                let mut s = String::from_str("Proof verification failed: ");
                s.append(m.as_str());
                s
            },
            StatelessExecutionLayerError::GenerationFailed(m) => {
                let mut s = String::from_str("Proof generation failed: ");
                s.append(m.as_str());
                s
            },
            StatelessExecutionLayerError::ConfigError(m) => {
                let mut s = String::from_str("Configuration error: ");
                s.append(m.as_str());
                s
            },
            StatelessExecutionLayerError::Internal(m) => {
                let mut s = String::from_str("Internal error: ");
                s.append(m.as_str());
                s
            },
        }
    }
}

/// Payload status returned from Engine API methods
#[derive(Debug)]
pub enum PayloadStatus {
    /// Payload is valid
    Valid,
    /// Payload validation is in progress (waiting for proofs)
    Syncing,
    /// Payload is invalid
    Invalid { error: String },
}

/// Response from forkchoice_updated
#[derive(Debug)]
pub struct ForkchoiceUpdatedResponse {
    pub payload_status: PayloadStatus,
}

} // verus!
