use landingbench::config::{
    default_compute_unit_limit, default_landing_grace_ms, default_priority_fee,
    default_utility_rpc, validate_config, ArgsCommitment, CommitmentLevel, ConfigFault,
    ConfigSource, ConfigToml, Endpoint, EndpointFault, EndpointKind, GrpcKind,
};

fn endpoint(name: &str, kind: EndpointKind) -> Endpoint {
    Endpoint {
        name: name.to_string(),
        url: "https://example.org".to_string(),
        kind,
        tip_lamports: None,
        tip_wallet: None,
        api_key: None,
    }
}

fn config_with(endpoints: Vec<Endpoint>) -> ConfigToml {
    let mut config = ConfigToml::create_default();
    config.endpoint = endpoints;
    config
}

fn fault_text(config: &ConfigToml) -> String {
    match validate_config(config) {
        Ok(()) => "runnable".to_string(),
        Err(fault) => fault.message(),
    }
}

#[test]
fn default_config_is_runnable() {
    let c = ConfigToml::create_default();
    assert!(validate_config(&c).is_ok());
}

#[test]
fn default_config_has_its_values() {
    let c = ConfigToml::create_default();
    assert_eq!(c.config.utility_rpc, "https://api.mainnet-beta.solana.com");
    assert_eq!(c.config.transactions, 100);
    assert_eq!(c.config.delay_ms, 50);
    assert_eq!(c.config.commitment, ArgsCommitment::Processed);
    assert_eq!(c.config.nonce_account, "nonceaccountgoeshere");
    assert_eq!(c.config.private_key, "pkgoeshere");
    assert_eq!(c.config.landing_grace_ms, 10_000);
    assert_eq!(c.config.prio_fee, None);
    assert_eq!(c.config.compute_unit_limit, 1_000_000);
    assert_eq!(c.grpc.name, "listener");
    assert_eq!(c.grpc.url, "http://fra.corvus-labs.io:10101");
    assert_eq!(c.grpc.x_token, None);
    assert_eq!(c.grpc.kind, GrpcKind::Yellowstone);
    assert_eq!(c.endpoint.len(), 2);
    assert_eq!(c.endpoint[0].name, "rpc-a");
    assert_eq!(c.endpoint[0].url, "https://api.mainnet-beta.solana.com");
    assert_eq!(c.endpoint[1].name, "rpc-b");
    assert_eq!(c.endpoint[1].url, "https://ssc-dao.genesysgo.net");
    for ep in &c.endpoint {
        assert_eq!(ep.kind, EndpointKind::Rpc);
        assert_eq!(ep.tip_lamports, None);
        assert_eq!(ep.tip_wallet, None);
        assert_eq!(ep.api_key, None);
    }
}

#[test]
fn defaults_of_single_settings() {
    assert_eq!(default_landing_grace_ms(), 10_000);
    assert_eq!(default_priority_fee(), None);
    assert_eq!(default_compute_unit_limit(), 1_000_000);
    assert_eq!(default_utility_rpc(), "https://api.mainnet-beta.solana.com");
    assert_eq!(ArgsCommitment::default(), ArgsCommitment::Processed);
}

#[test]
fn existing_file_is_loaded_and_missing_one_created() {
    assert!(matches!(ConfigToml::load_or_create(true), ConfigSource::Load));
    match ConfigToml::load_or_create(false) {
        ConfigSource::Create(c) => assert_eq!(c.endpoint.len(), 2),
        ConfigSource::Load => panic!("nothing to load"),
    }
}

#[test]
fn names_of_kinds_and_commitments() {
    assert_eq!(EndpointKind::Rpc.as_str(), "rpc");
    assert_eq!(EndpointKind::Custom.as_str(), "custom");
    assert_eq!(EndpointKind::Soyas.as_str(), "soyas");
    assert_eq!(ArgsCommitment::Processed.as_str(), "processed");
    assert_eq!(ArgsCommitment::Confirmed.as_str(), "confirmed");
    assert_eq!(ArgsCommitment::Finalized.as_str(), "finalized");
}

#[test]
fn commitments_have_the_numbers_of_the_protocol() {
    assert_eq!(CommitmentLevel::from(ArgsCommitment::Processed).number(), 0);
    assert_eq!(CommitmentLevel::from(ArgsCommitment::Confirmed).number(), 1);
    assert_eq!(CommitmentLevel::from(ArgsCommitment::Finalized).number(), 2);
}

#[test]
fn config_without_endpoints_is_refused() {
    assert_eq!(fault_text(&config_with(vec![])), "At least one RPC endpoint is required");
}

#[test]
fn listener_fault_has_its_message() {
    assert_eq!(
        ConfigFault::Listener.message(),
        "Only a single Yellowstone gRPC listener is supported for now"
    );
}

#[test]
fn custom_endpoint_needs_tip_then_wallet() {
    let mut ep = endpoint("fast", EndpointKind::Custom);
    assert_eq!(
        fault_text(&config_with(vec![ep.clone()])),
        "Custom endpoint fast must set tip_lamports > 0"
    );
    ep.tip_lamports = Some(0);
    assert_eq!(
        fault_text(&config_with(vec![ep.clone()])),
        "Custom endpoint fast must set tip_lamports > 0"
    );
    ep.tip_lamports = Some(1);
    assert_eq!(
        fault_text(&config_with(vec![ep.clone()])),
        "Custom endpoint fast must set tip_wallet"
    );
    ep.tip_wallet = Some("anything".to_string());
    assert_eq!(fault_text(&config_with(vec![ep])), "runnable");
}

#[test]
fn soyas_endpoint_needs_key_then_tip_then_wallet() {
    let mut ep = endpoint("quick", EndpointKind::Soyas);
    assert_eq!(
        fault_text(&config_with(vec![ep.clone()])),
        "Soyas endpoint quick must set api_key"
    );
    ep.api_key = Some("key".to_string());
    assert_eq!(
        fault_text(&config_with(vec![ep.clone()])),
        "Soyas endpoint quick must set tip_lamports > 0"
    );
    ep.tip_lamports = Some(7);
    assert_eq!(
        fault_text(&config_with(vec![ep.clone()])),
        "Soyas endpoint quick must set tip_wallet"
    );
    ep.tip_wallet = Some("anything".to_string());
    assert_eq!(fault_text(&config_with(vec![ep])), "runnable");
}

#[test]
fn first_faulty_endpoint_is_reported() {
    let config = config_with(vec![
        endpoint("a", EndpointKind::Rpc),
        endpoint("b", EndpointKind::Soyas),
        endpoint("c", EndpointKind::Custom),
    ]);
    match validate_config(&config) {
        Err(ConfigFault::Endpoint { kind, name, fault }) => {
            assert_eq!(kind, EndpointKind::Soyas);
            assert_eq!(name, "b");
            assert_eq!(fault, EndpointFault::ApiKey);
        }
        other => panic!("{:?}", other),
    }
}
