use hashgraph_like_consensus::error::ConsensusError;
use hashgraph_like_consensus::scope_config::{NetworkType, ScopeConfig, ScopeConfigBuilder};
use hashgraph_like_consensus::service::ConsensusService;
use hashgraph_like_consensus::session::ConsensusConfig;
use hashgraph_like_consensus::types::{CreateProposalRequest, Threshold};

#[test]
fn test_scope_config_creation() {
    let mut svc = ConsensusService::new();
    let scope = "scope".to_string();
    let cfg = svc
        .scope(&scope)
        .with_network_type(NetworkType::P2P)
        .with_threshold(Threshold::new(3, 4))
        .with_timeout(120)
        .build()
        .unwrap();
    svc.initialize_scope(&scope, cfg).unwrap();
    let stored = svc.get_scope_config(&scope).unwrap();
    assert_eq!(stored.network_type, NetworkType::P2P);
    assert_eq!(stored.default_consensus_threshold, Threshold::new(3, 4));
    assert_eq!(stored.default_timeout, 120);
    assert!(stored.default_liveness_criteria_yes);
}

#[test]
fn test_scope_config_update() {
    let mut svc = ConsensusService::new();
    let scope = "update_test_scope".to_string();
    svc.initialize_scope(&scope, ScopeConfig::default()).unwrap();
    let cfg = svc.scope(&scope).with_threshold(Threshold::new(4, 5)).build().unwrap();
    svc.update_scope_config(&scope, cfg).unwrap();
    let stored = svc.get_scope_config(&scope).unwrap();
    assert_eq!(stored.default_consensus_threshold, Threshold::new(4, 5));
    assert_eq!(stored.default_timeout, 60);
    assert_eq!(stored.network_type, NetworkType::Gossipsub);
}

#[test]
fn test_scope_config_update_multiple_fields() {
    let mut svc = ConsensusService::new();
    let scope = "multi_update_scope".to_string();
    let cfg = svc.scope(&scope).with_timeout(30).build().unwrap();
    svc.initialize_scope(&scope, cfg).unwrap();
    let cfg = svc
        .scope(&scope)
        .with_network_type(NetworkType::P2P)
        .with_timeout(180)
        .with_liveness_criteria(false)
        .build()
        .unwrap();
    svc.update_scope_config(&scope, cfg).unwrap();
    let stored = svc.get_scope_config(&scope).unwrap();
    assert_eq!(stored.network_type, NetworkType::P2P);
    assert_eq!(stored.default_timeout, 180);
    assert!(!stored.default_liveness_criteria_yes);
    assert_eq!(stored.default_consensus_threshold, Threshold::two_thirds());
}

#[test]
fn test_scope_config_presets() {
    let cfg = ScopeConfigBuilder::new().p2p_preset().get_config();
    assert_eq!(cfg.network_type, NetworkType::P2P);
    assert_eq!(cfg.default_timeout, 60);
    let cfg = ScopeConfigBuilder::new().strict_consensus().get_config();
    assert_eq!(cfg.default_consensus_threshold, Threshold::new(9, 10));
    let cfg = ScopeConfigBuilder::new().fast_consensus().get_config();
    assert_eq!(cfg.default_consensus_threshold, Threshold::new(3, 5));
    assert_eq!(cfg.default_timeout, 30);
    let cfg = ScopeConfigBuilder::new().with_max_rounds(Some(5)).gossipsub_preset().get_config();
    assert_eq!(cfg, ScopeConfig::default());
    let cfg = ScopeConfigBuilder::new().with_timeout(5).with_network_defaults(NetworkType::P2P).get_config();
    assert_eq!(cfg.default_timeout, 60);
    assert_eq!(cfg.network_type, NetworkType::P2P);
}

#[test]
fn test_scope_config_validation() {
    assert_eq!(
        ScopeConfigBuilder::new().with_threshold(Threshold::new(3, 2)).build().unwrap_err(),
        ConsensusError::InvalidConsensusThreshold
    );
    assert_eq!(ScopeConfigBuilder::new().with_timeout(0).build().unwrap_err(), ConsensusError::InvalidTimeout);
    let mut svc = ConsensusService::new();
    let scope = "validation_test_scope".to_string();
    let bad = ScopeConfigBuilder::new().with_timeout(0).get_config();
    assert_eq!(svc.initialize_scope(&scope, bad), Err(ConsensusError::InvalidTimeout));
    assert!(svc.get_scope_config(&scope).is_none());
    assert!(ScopeConfigBuilder::new().validate().is_ok());
}

#[test]
fn test_scope_config_new_scope_uses_defaults() {
    let svc = ConsensusService::new();
    let cfg = svc.scope(&"new_scope_defaults".to_string()).get_config();
    assert_eq!(cfg.network_type, NetworkType::Gossipsub);
    assert_eq!(cfg.default_consensus_threshold, Threshold::two_thirds());
    assert_eq!(cfg.default_timeout, 60);
    assert!(cfg.default_liveness_criteria_yes);
}

#[test]
fn test_max_rounds_override_zero_validation() {
    let mut svc = ConsensusService::new();
    let p2p = ScopeConfigBuilder::new().with_network_type(NetworkType::P2P).with_max_rounds(Some(0)).get_config();
    assert!(svc.initialize_scope(&"p2p_zero_rounds".to_string(), p2p).is_ok());
    let gs = ScopeConfigBuilder::new().with_max_rounds(Some(0)).get_config();
    assert_eq!(svc.initialize_scope(&"gossipsub_zero_rounds".to_string(), gs), Err(ConsensusError::InvalidMaxRounds));
}

#[test]
fn config_resolution_order() {
    let mut svc = ConsensusService::new();
    let scope = "resolve".to_string();
    let p = CreateProposalRequest::new("P".to_string(), vec![], vec![1], 3, 90, false).unwrap().into_proposal_at(1, 1000);
    // no scope config: global defaults, timeout from the proposal's lifetime
    let c = svc.resolve_config(&scope, None, Some(&p));
    assert_eq!(c, ConsensusConfig::new(Threshold::two_thirds(), 90, 2, true, false));
    // scope config
    let sc = ScopeConfigBuilder::new().p2p_preset().with_threshold(Threshold::new(3, 4)).build().unwrap();
    svc.initialize_scope(&scope, sc).unwrap();
    let c = svc.resolve_config(&scope, None, None);
    assert_eq!(c, ConsensusConfig::new(Threshold::new(3, 4), 60, 0, false, true));
    // explicit override wins
    let c = svc.resolve_config(&scope, Some(ConsensusConfig::gossipsub()), Some(&p));
    assert_eq!(c, ConsensusConfig::new(Threshold::two_thirds(), 90, 2, true, false));
    assert_eq!(sc.to_consensus_config(), ConsensusConfig::new(Threshold::new(3, 4), 60, 0, false, true));
}

#[test]
fn proposal_request_validation() {
    assert_eq!(
        CreateProposalRequest::new("P".to_string(), vec![], vec![1], 0, 10, true).unwrap_err(),
        ConsensusError::InvalidExpectedVotersCount
    );
    assert_eq!(
        CreateProposalRequest::new("P".to_string(), vec![], vec![1], 3, 0, true).unwrap_err(),
        ConsensusError::InvalidTimeout
    );
    let p = CreateProposalRequest::new("P".to_string(), vec![], vec![1], 3, 10, true).unwrap().into_proposal_at(4, u64::MAX - 5);
    assert_eq!(p.expiration_timestamp, u64::MAX);
    let p = CreateProposalRequest::new("P".to_string(), vec![], vec![1], 3, 10, true).unwrap().into_proposal().unwrap();
    assert_eq!(p.expiration_timestamp, p.timestamp + 10);
    assert_eq!(p.round, 1);
}

#[test]
fn conversions_between_configs() {
    let sc = ScopeConfig::from(NetworkType::P2P);
    assert_eq!(sc.network_type, NetworkType::P2P);
    assert_eq!(sc.max_rounds_override, None);
    let cc = ConsensusConfig::from(sc);
    assert_eq!(cc, ConsensusConfig::p2p());
    let gs = ConsensusConfig::from(ScopeConfig::from(NetworkType::Gossipsub));
    assert_eq!(gs, ConsensusConfig::gossipsub());
    assert_eq!(ConsensusConfig::default(), ConsensusConfig::gossipsub());
    let with_override = ScopeConfigBuilder::new().with_max_rounds(Some(5)).get_config();
    assert_eq!(ConsensusConfig::from(with_override).max_rounds, 5);
}
