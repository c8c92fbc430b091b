use lighthouse_proofs::stateless_execution_layer::errors::{GenerationError, VerificationError};
use lighthouse_proofs::types::SubnetId;

#[test]
fn test_generation_error_display() {
    let err = GenerationError::GenerationFailed("test error".to_string());
    assert!(err.message().contains("test error"));

    let err = GenerationError::Timeout;
    assert!(err.message().contains("timeout"));
}

#[test]
fn test_verification_error_display() {
    let err = VerificationError::VerificationFailed("test error".to_string());
    assert!(err.message().contains("test error"));

    let subnet = SubnetId::new(0).unwrap();
    let err = VerificationError::UnsupportedSubnet(subnet);
    assert!(err.message().contains("Unsupported subnet"));
}

#[test]
fn error_messages_exact() {
    assert_eq!(GenerationError::Timeout.message(), "Proof generation timeout");
    assert_eq!(
        VerificationError::ProofSizeMismatch { expected: 4, actual: 7 }.message(),
        "Proof size mismatch: expected 4, got 7"
    );
    assert_eq!(
        VerificationError::UnsupportedSubnet(SubnetId::new(5).unwrap()).message(),
        "Unsupported subnet: 5"
    );
}
