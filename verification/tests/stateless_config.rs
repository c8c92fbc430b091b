use lighthouse_proofs::stateless_execution_layer::config::StatelessExecutionLayerConfig;
use lighthouse_proofs::types::SubnetId;

#[test]
fn test_default_config_validation() {
    let config = StatelessExecutionLayerConfig::default();
    assert!(config.validate().is_err());
}

#[test]
fn test_valid_config() {
    let subnet_0 = SubnetId::new(0).unwrap();
    let subnet_1 = SubnetId::new(1).unwrap();

    let config = StatelessExecutionLayerConfig::builder()
        .add_subscribed_subnet(subnet_0)
        .add_subscribed_subnet(subnet_1)
        .min_proofs_required(2)
        .build();

    assert!(config.is_ok());
}

#[test]
fn test_min_proofs_too_high() {
    let subnet_0 = SubnetId::new(0).unwrap();

    let config = StatelessExecutionLayerConfig::builder()
        .add_subscribed_subnet(subnet_0)
        .min_proofs_required(2)
        .build();

    assert!(config.is_err());
    assert!(config.unwrap_err().contains("subscribed_subnets"));
}

#[test]
fn test_generation_subnet_not_subscribed() {
    let subnet_0 = SubnetId::new(0).unwrap();
    let subnet_1 = SubnetId::new(1).unwrap();

    let config = StatelessExecutionLayerConfig::builder()
        .add_subscribed_subnet(subnet_0)
        .add_generation_subnet(subnet_1)
        .build();

    assert!(config.is_err());
    assert!(config.unwrap_err().contains("generation_subnets must be a subset"));
}

#[test]
fn test_valid_config_with_generation() {
    let subnet_0 = SubnetId::new(0).unwrap();
    let subnet_1 = SubnetId::new(1).unwrap();

    let config = StatelessExecutionLayerConfig::builder()
        .add_subscribed_subnet(subnet_0)
        .add_subscribed_subnet(subnet_1)
        .add_generation_subnet(subnet_0)
        .min_proofs_required(1)
        .proof_cache_size(512)
        .build();

    assert!(config.is_ok());
    let config = config.unwrap();
    assert_eq!(config.subscribed_subnets.len(), 2);
    assert_eq!(config.generation_subnets.len(), 1);
    assert_eq!(config.min_proofs_required, 1);
    assert_eq!(config.proof_cache_size, 512);
}

#[test]
fn test_min_proofs_required_zero() {
    let subnet_0 = SubnetId::new(0).unwrap();

    let config = StatelessExecutionLayerConfig::builder()
        .add_subscribed_subnet(subnet_0)
        .min_proofs_required(0)
        .build();

    assert!(config.is_err());
    assert!(config.unwrap_err().contains("min_proofs_required must be at least 1"));
}

#[test]
fn exact_validation_messages() {
    let subnet_0 = SubnetId::new(0).unwrap();
    let subnet_3 = SubnetId::new(3).unwrap();
    let too_high = StatelessExecutionLayerConfig::builder()
        .add_subscribed_subnet(subnet_0)
        .min_proofs_required(2)
        .build();
    assert_eq!(too_high.unwrap_err(), "subscribed_subnets (1) must be >= min_proofs_required (2)");
    let not_subscribed = StatelessExecutionLayerConfig::builder()
        .add_subscribed_subnet(subnet_0)
        .add_generation_subnet(subnet_3)
        .build();
    assert_eq!(
        not_subscribed.unwrap_err(),
        "generation_subnets must be a subset of subscribed_subnets (subnet 3 not subscribed)"
    );
    let no_cache = StatelessExecutionLayerConfig::builder()
        .add_subscribed_subnet(subnet_0)
        .proof_cache_size(0)
        .build();
    assert_eq!(no_cache.unwrap_err(), "proof_cache_size must be at least 1");
}

#[test]
fn adding_a_subnet_twice_counts_once() {
    let subnet_0 = SubnetId::new(0).unwrap();
    let config = StatelessExecutionLayerConfig::builder()
        .add_subscribed_subnet(subnet_0)
        .add_subscribed_subnet(subnet_0)
        .build()
        .unwrap();
    assert_eq!(config.subscribed_subnets.len(), 1);
    assert_eq!(config.proof_request_timeout, 5000);
    assert_eq!(config.gossip_grace_period, 200);
}
