use lighthouse_proofs::types::{ProofId, SubnetId};

#[test]
fn test_proof_id_basics() {
    assert_eq!(ProofId::execution_witness().id(), 0);
    assert_eq!(ProofId::custom(42).id(), 42);
}

#[test]
fn test_proof_id_descriptions() {
    assert_eq!(ProofId::execution_witness().identifier(), "execution_witness");
    assert_eq!(ProofId::custom(1).identifier(), "custom");
    assert_eq!(ProofId::execution_witness().description(), "Execution witness proof");
    assert_eq!(ProofId::custom(42).description(), "Custom proof type 42");
}

#[test]
fn test_subnet_id_validation() {
    assert!(SubnetId::new(0).is_ok());
    assert!(SubnetId::new(7).is_ok());
    assert!(SubnetId::new(8).is_err());
    assert!(SubnetId::new(100).is_err());
}

#[test]
fn proof_id_test_proof_id_subnet_mapping() {
    let proof_id = ProofId::custom(3);
    let subnet_id = proof_id.subnet_id();
    assert_eq!(subnet_id.id(), 3);
    assert_eq!(proof_id.subnet_topic(), "execution_proof_3");
}

#[test]
fn subnet_round_trip_for_every_subnet() {
    for id in 0..8u64 {
        let proof_id = ProofId::custom(id);
        assert_eq!(proof_id.subnet_id().as_proof_id(), proof_id);
        assert_eq!(u64::from(proof_id.subnet_id()), id);
    }
}

#[test]
fn invalid_subnet_error_names_the_id() {
    match SubnetId::new(9) {
        Err(e) => assert_eq!(e.message(), "Invalid subnet ID: 9"),
        Ok(_) => panic!("subnet 9 accepted"),
    }
}

#[test]
fn subnet_try_from_matches_new() {
    assert_eq!(SubnetId::try_from(5).unwrap().id(), 5);
    assert!(SubnetId::try_from(8).is_err());
    let s: Result<SubnetId, _> = 7u64.try_into();
    assert_eq!(s.unwrap().id(), 7);
}

#[test]
fn execution_proof_tests_test_proof_id_subnet_mapping() {
    for subnet_id in 0..8u64 {
        let proof_id = ProofId::custom(subnet_id);
        assert_eq!(proof_id.subnet_id().id(), subnet_id);
        assert_eq!(proof_id.id(), subnet_id);
        assert_eq!(proof_id.subnet_topic(), format!("execution_proof_{}", subnet_id));
    }

    let witness_proof = ProofId::execution_witness();
    assert_eq!(witness_proof.subnet_id().id(), 0);
    assert_eq!(witness_proof.identifier(), "execution_witness");
}
