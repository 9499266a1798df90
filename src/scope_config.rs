//! Per-scope defaults for new proposals, and their builder.
use vstd::prelude::*;
use crate::error::ConsensusError;
use crate::session::ConsensusConfig;
use crate::types::Threshold;
use crate::utils::{validate_threshold, validate_timeout};

verus! {

/// How votes travel, which decides the round policy.
#[derive(Debug, Clone, Copy, PartialEq, Eq, Structural)]
pub enum NetworkType {
    /// Gossipsub: two rounds, every vote lives in round 2.
    Gossipsub,
    /// Point to point: each vote advances the round; the limit defaults to
    /// `ceil(n * threshold)`.
    P2P,
}

/// Defaults that apply to the proposals of one scope.
#[derive(Debug, Clone, Copy, PartialEq, Eq, Structural)]
pub struct ScopeConfig {
    pub network_type: NetworkType,
    pub default_consensus_threshold: Threshold,
    /// Seconds.
    pub default_timeout: u64,
    pub default_liveness_criteria_yes: bool,
    /// Round limit; `None` keeps the network type's default.
    pub max_rounds_override: Option<u32>,
}

/// The defaults of a scope with no configuration: Gossipsub, 2/3, 60 s, liveness YES.
pub open spec fn default_scope_config(network_type: NetworkType) -> ScopeConfig {
    ScopeConfig {
        network_type,
        default_consensus_threshold: Threshold { numerator: 2, denominator: 3 },
        default_timeout: 60,
        default_liveness_criteria_yes: true,
        max_rounds_override: None,
    }
}

/// The outcome of validating a scope configuration.
pub open spec fn scope_config_check(c: ScopeConfig) -> Result<(), ConsensusError> {
    if !c.default_consensus_threshold.valid() {
        Err(ConsensusError::InvalidConsensusThreshold)
    } else if c.default_timeout == 0 {
        Err(ConsensusError::InvalidTimeout)
    } else if c.max_rounds_override == Some(0u32) && c.network_type == NetworkType::Gossipsub {
        Err(ConsensusError::InvalidMaxRounds)
    } else {
        Ok(())
    }
}

/// The session configuration a scope configuration resolves to.
pub open spec fn consensus_config_of(c: ScopeConfig) -> ConsensusConfig {
    ConsensusConfig {
        consensus_threshold: c.default_consensus_threshold,
        consensus_timeout: c.default_timeout,
        max_rounds: match c.max_rounds_override {
            Some(m) => m,
            None => if c.network_type == NetworkType::Gossipsub { 2 } else { 0 },
        },
        use_gossipsub_rounds: c.network_type == NetworkType::Gossipsub,
        liveness_criteria: c.default_liveness_criteria_yes,
    }
}

impl ScopeConfig {
    /// Threshold in `[0, 1]`, positive timeout, and a zero round limit only for
    /// point-to-point scopes (where it means "dynamic").
    pub fn validate(&self) -> (r: Result<(), ConsensusError>)
        ensures
            r == scope_config_check(*self),
    {
        validate_threshold(self.default_consensus_threshold)?;
        validate_timeout(self.default_timeout)?;
        if let Some(m) = self.max_rounds_override {
            if m == 0 && self.network_type == NetworkType::Gossipsub {
                return Err(ConsensusError::InvalidMaxRounds);
            }
        }
        Ok(())
    }

    /// The defaults for a network type.
    pub fn for_network(network_type: NetworkType) -> (r: ScopeConfig)
        ensures
            r == default_scope_config(network_type),
    {
        ScopeConfig {
            network_type,
            default_consensus_threshold: Threshold::two_thirds(),
            default_timeout: 60,
            default_liveness_criteria_yes: true,
            max_rounds_override: None,
        }
    }

    /// The session configuration this scope configuration resolves to.
    pub fn to_consensus_config(&self) -> (r: ConsensusConfig)
        ensures
            r == consensus_config_of(*self),
    {
        let (max_rounds, use_gossipsub_rounds) = match self.network_type {
            NetworkType::Gossipsub => (
                match self.max_rounds_override {
                    Some(m) => m,
                    None => 2,
                },
                true,
            ),
            NetworkType::P2P => (
                match self.max_rounds_override {
                    Some(m) => m,
                    None => 0,
                },
                false,
            ),
        };
        ConsensusConfig::new(
            self.default_consensus_threshold,
            self.default_timeout,
            max_rounds,
            use_gossipsub_rounds,
            self.default_liveness_criteria_yes,
        )
    }
}

impl From<NetworkType> for ScopeConfig {
    fn from(network_type: NetworkType) -> (r: ScopeConfig) {
        ScopeConfig::for_network(network_type)
    }
}

impl vstd::std_specs::convert::FromSpecImpl<NetworkType> for ScopeConfig {
    open spec fn obeys_from_spec() -> bool {
        true
    }

    open spec fn from_spec(network_type: NetworkType) -> ScopeConfig {
        default_scope_config(network_type)
    }
}

impl From<ScopeConfig> for ConsensusConfig {
    fn from(config: ScopeConfig) -> (r: ConsensusConfig) {
        config.to_consensus_config()
    }
}

impl vstd::std_specs::convert::FromSpecImpl<ScopeConfig> for ConsensusConfig {
    open spec fn obeys_from_spec() -> bool {
        true
    }

    open spec fn from_spec(config: ScopeConfig) -> ConsensusConfig {
        consensus_config_of(config)
    }
}

impl Default for ScopeConfig {
    fn default() -> (r: ScopeConfig)
        ensures
            r == default_scope_config(NetworkType::Gossipsub),
    {
        ScopeConfig::for_network(NetworkType::Gossipsub)
    }
}

/// Assembles a [`ScopeConfig`] step by step.
#[derive(Debug, Clone, Copy)]
pub struct ScopeConfigBuilder {
    config: ScopeConfig,
}

impl ScopeConfigBuilder {
    /// The configuration built so far.
    pub closed spec fn current(self) -> ScopeConfig {
        self.config
    }

    /// Starts from the Gossipsub defaults.
    pub fn new() -> (r: ScopeConfigBuilder)
        ensures
            r.current() == default_scope_config(NetworkType::Gossipsub),
    {
        ScopeConfigBuilder { config: ScopeConfig::for_network(NetworkType::Gossipsub) }
    }

    /// Starts from an existing configuration (for partial updates).
    pub fn from_existing(config: ScopeConfig) -> (r: ScopeConfigBuilder)
        ensures
            r.current() == config,
    {
        ScopeConfigBuilder { config }
    }

    pub fn with_network_type(self, network_type: NetworkType) -> (r: ScopeConfigBuilder)
        ensures
            r.current() == (ScopeConfig { network_type, ..self.current() }),
    {
        ScopeConfigBuilder { config: ScopeConfig { network_type, ..self.config } }
    }

    pub fn with_threshold(self, threshold: Threshold) -> (r: ScopeConfigBuilder)
        ensures
            r.current() == (ScopeConfig { default_consensus_threshold: threshold, ..self.current() }),
    {
        ScopeConfigBuilder { config: ScopeConfig { default_consensus_threshold: threshold, ..self.config } }
    }

    /// Default timeout, in seconds.
    pub fn with_timeout(self, timeout: u64) -> (r: ScopeConfigBuilder)
        ensures
            r.current() == (ScopeConfig { default_timeout: timeout, ..self.current() }),
    {
        ScopeConfigBuilder { config: ScopeConfig { default_timeout: timeout, ..self.config } }
    }

    pub fn with_liveness_criteria(self, liveness_criteria_yes: bool) -> (r: ScopeConfigBuilder)
        ensures
            r.current() == (ScopeConfig { default_liveness_criteria_yes: liveness_criteria_yes, ..self.current() }),
    {
        ScopeConfigBuilder {
            config: ScopeConfig { default_liveness_criteria_yes: liveness_criteria_yes, ..self.config },
        }
    }

    pub fn with_max_rounds(self, max_rounds: Option<u32>) -> (r: ScopeConfigBuilder)
        ensures
            r.current() == (ScopeConfig { max_rounds_override: max_rounds, ..self.current() }),
    {
        ScopeConfigBuilder { config: ScopeConfig { max_rounds_override: max_rounds, ..self.config } }
    }

    /// Replaces the whole configuration.
    pub fn with_config(self, config: ScopeConfig) -> (r: ScopeConfigBuilder)
        ensures
            r.current() == config,
    {
        ScopeConfigBuilder { config }
    }

    /// Point-to-point defaults.
    pub fn p2p_preset(self) -> (r: ScopeConfigBuilder)
        ensures
            r.current() == default_scope_config(NetworkType::P2P),
    {
        ScopeConfigBuilder { config: ScopeConfig::for_network(NetworkType::P2P) }
    }

    /// Gossipsub defaults.
    pub fn gossipsub_preset(self) -> (r: ScopeConfigBuilder)
        ensures
            r.current() == default_scope_config(NetworkType::Gossipsub),
    {
        ScopeConfigBuilder { config: ScopeConfig::for_network(NetworkType::Gossipsub) }
    }

    /// A high threshold, 9/10.
    pub fn strict_consensus(self) -> (r: ScopeConfigBuilder)
        ensures
            r.current() == (ScopeConfig {
                default_consensus_threshold: Threshold { numerator: 9, denominator: 10 },
                ..self.current()
            }),
    {
        self.with_threshold(Threshold::new(9, 10))
    }

    /// A low threshold, 3/5, and a 30 s timeout.
    pub fn fast_consensus(self) -> (r: ScopeConfigBuilder)
        ensures
            r.current() == (ScopeConfig {
                default_consensus_threshold: Threshold { numerator: 3, denominator: 5 },
                default_timeout: 30,
                ..self.current()
            }),
    {
        self.with_threshold(Threshold::new(3, 5)).with_timeout(30)
    }

    /// The network type with its default threshold and timeout; the other fields stay.
    pub fn with_network_defaults(self, network_type: NetworkType) -> (r: ScopeConfigBuilder)
        ensures
            r.current() == (ScopeConfig {
                network_type,
                default_consensus_threshold: Threshold { numerator: 2, denominator: 3 },
                default_timeout: 60,
                ..self.current()
            }),
    {
        self.with_network_type(network_type).with_threshold(Threshold::two_thirds()).with_timeout(60)
    }

    pub fn validate(&self) -> (r: Result<(), ConsensusError>)
        ensures
            r == scope_config_check(self.current()),
    {
        self.config.validate()
    }

    /// The configuration, if it is valid.
    pub fn build(self) -> (r: Result<ScopeConfig, ConsensusError>)
        ensures
            match r {
                Ok(c) => c == self.current() && scope_config_check(c) is Ok,
                Err(e) => scope_config_check(self.current()) == Err::<(), ConsensusError>(e),
            },
    {
        self.config.validate()?;
        Ok(self.config)
    }

    /// The configuration built so far.
    pub fn get_config(&self) -> (r: ScopeConfig)
        ensures
            r == self.current(),
    {
        self.config
    }
}

impl Default for ScopeConfigBuilder {
    fn default() -> (r: ScopeConfigBuilder)
        ensures
            r.current() == default_scope_config(NetworkType::Gossipsub),
    {
        ScopeConfigBuilder::new()
    }
}

} // verus!
