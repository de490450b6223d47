//! The whole configuration of the core: environment, networking, logging, markets, broker.
use vstd::prelude::*;

use crate::config::environment::Environment;
use crate::config::error::{text, ConfigError};
use crate::config::logging::{
    logging_development_defaults, logging_merged, logging_problem_with,
    logging_production_defaults, logging_test_defaults, LoggingConfig,
};
use crate::config::networking::{
    core_development_defaults, core_networking_problem, core_production_defaults,
    core_test_defaults, gateway_development_defaults, gateway_networking_problem,
    gateway_production_defaults, gateway_test_defaults, CoreNetworkingConfig,
    GatewayNetworkingConfig,
};
use crate::config::logging::lemma_logging_defaults_valid;
use crate::config::networking::lemma_networking_defaults_valid;
use crate::config::symbols::{
    default_markets, lemma_default_markets_valid, symbols_result, symbols_valid,
    SymbolSpecificationConfig,
};
use crate::model::CoreMarketSpecification;

verus! {

/// The configuration of the core.
pub struct VexConfig {
    /// The environment the configuration is for.
    pub environment: Environment,
    /// Networking of the core.
    pub core_networking: CoreNetworkingConfig,
    /// Networking of the gateways.
    pub gateway_networking: GatewayNetworkingConfig,
    /// Logging.
    pub logging: LoggingConfig,
    /// Traded markets.
    pub symbols: SymbolSpecificationConfig,
    /// Address of the Kafka broker that events are published to.
    pub kafka_broker: String,
}

/// The broker address used when none is configured.
pub open spec fn default_broker() -> Seq<char> {
    "localhost:9092"@
}

/// The broker address used when none is configured: "localhost:9092".
pub fn default_kafka_broker() -> (r: String)
    ensures
        r@ == default_broker(),
{
    text("localhost:9092")
}

/// The configuration holds the defaults of its environment.
pub open spec fn vex_defaults(c: VexConfig, env: Environment) -> bool {
    &&& c.environment == env
    &&& c.kafka_broker@ == default_broker()
    &&& match env {
        Environment::Development => {
            &&& core_development_defaults(c.core_networking)
            &&& gateway_development_defaults(c.gateway_networking)
            &&& logging_development_defaults(c.logging)
            &&& c.symbols.symbols@ == default_markets()
        },
        Environment::Test => {
            &&& core_test_defaults(c.core_networking)
            &&& gateway_test_defaults(c.gateway_networking)
            &&& logging_test_defaults(c.logging)
            &&& c.symbols.symbols@ == default_markets()
        },
        Environment::Production => {
            &&& core_production_defaults(c.core_networking)
            &&& gateway_production_defaults(c.gateway_networking)
            &&& logging_production_defaults(c.logging)
            &&& c.symbols.symbols@ == Map::<u32, CoreMarketSpecification>::empty()
        },
    }
}

/// The result of validating the whole configuration, given whether the sampling rate of the
/// logging (held outside this library) lies within [0, 1]: the core networking, the gateway
/// networking, the logging and the markets are checked in this order, and the first failing
/// check decides the error.
pub open spec fn vex_result(r: Result<(), ConfigError>, c: VexConfig, sampling_in_range: bool) -> bool {
    match core_networking_problem(c.core_networking) {
        Some(m) => r is Err && r->Err_0 is NetworkError && r->Err_0->NetworkError_0@ == m,
        None => match gateway_networking_problem(c.gateway_networking) {
            Some(m) => r is Err && r->Err_0 is NetworkError && r->Err_0->NetworkError_0@ == m,
            None => match logging_problem_with(c.logging, sampling_in_range) {
                Some(m) => r is Err && r->Err_0 is LoggingError && r->Err_0->LoggingError_0@
                    == m,
                None => symbols_result(r, c.symbols.symbols@),
            },
        },
    }
}

/// `merged` is `base` after taking over `other` of the same environment: the networking of
/// `other`, the logging of both merged, the markets of both with those of `other` winning, and
/// the environment and broker of `base`.
pub open spec fn vex_merged(base: VexConfig, other: VexConfig, merged: VexConfig) -> bool {
    &&& merged.environment == base.environment
    &&& merged.core_networking == other.core_networking
    &&& merged.gateway_networking == other.gateway_networking
    &&& logging_merged(base.logging, other.logging, merged.logging)
    &&& merged.symbols.symbols@ == base.symbols.symbols@.union_prefer_right(other.symbols.symbols@)
    &&& merged.kafka_broker == base.kafka_broker
}

/// Whether a result holds a configuration, dropping the configuration.
pub open spec fn outcome(r: Result<VexConfig, ConfigError>) -> Result<(), ConfigError> {
    match r {
        Ok(_) => Ok(()),
        Err(e) => Err(e),
    }
}

/// The message for merging configurations of different environments.
pub open spec fn different_environments_message() -> Seq<char> {
    "Cannot merge configurations with different environments"@
}

impl VexConfig {
    /// The defaults of the environment, with the default broker.
    pub fn new(environment: Environment) -> (r: VexConfig)
        ensures
            vex_defaults(r, environment),
    {
        VexConfig {
            core_networking: CoreNetworkingConfig::for_environment(&environment),
            gateway_networking: GatewayNetworkingConfig::for_environment(&environment),
            logging: LoggingConfig::for_environment(&environment),
            symbols: SymbolSpecificationConfig::for_environment(&environment),
            kafka_broker: default_kafka_broker(),
            environment,
        }
    }

    /// Checks the configuration, given whether the sampling rate of the logging lies within
    /// [0, 1].
    pub fn validate_with_sampling(&self, sampling_in_range: bool) -> (r: Result<(), ConfigError>)
        ensures
            vex_result(r, *self, sampling_in_range),
    {
        match self.core_networking.validate() {
            Ok(()) => {},
            Err(e) => {
                return Err(e);
            },
        }
        match self.gateway_networking.validate() {
            Ok(()) => {},
            Err(e) => {
                return Err(e);
            },
        }
        match self.logging.validate_with_sampling(sampling_in_range) {
            Ok(()) => {},
            Err(e) => {
                return Err(e);
            },
        }
        self.symbols.validate()
    }

    /// Checks the configuration, the sampling rate of the logging taken to be within [0, 1].
    pub fn validate(&self) -> (r: Result<(), ConfigError>)
        ensures
            vex_result(r, *self, true),
    {
        self.validate_with_sampling(true)
    }

    /// Takes over the other configuration of the same environment: its networking, its
    /// logging settings and its markets, its values winning. The broker address stays. A
    /// configuration of another environment is refused and nothing changes.
    pub fn merge_with(&mut self, other: &VexConfig) -> (r: Result<(), ConfigError>)
        ensures
            old(self).environment != other.environment ==> {
                &&& r is Err
                &&& r->Err_0 is ValidationError
                &&& r->Err_0->ValidationError_0@ == different_environments_message()
                &&& *final(self) == *old(self)
            },
            old(self).environment == other.environment ==> r is Ok && vex_merged(
                *old(self),
                *other,
                *final(self),
            ),
    {
        if self.environment != other.environment {
            return Err(
                ConfigError::ValidationError(
                    text("Cannot merge configurations with different environments"),
                ),
            );
        }
        let _ = self.core_networking.merge_with(&other.core_networking);
        let _ = self.gateway_networking.merge_with(&other.gateway_networking);
        let _ = self.logging.merge_with(&other.logging);
        let _ = self.symbols.merge_with(&other.symbols);
        Ok(())
    }

    /// The environment the configuration is for.
    pub fn environment(&self) -> (r: &Environment)
        ensures
            *r == self.environment,
    {
        &self.environment
    }

    /// Whether the configuration is for production.
    pub fn is_production(&self) -> (r: bool)
        ensures
            r == (self.environment == Environment::Production),
    {
        self.environment.is_production()
    }

    /// Whether the configuration is for development.
    pub fn is_development(&self) -> (r: bool)
        ensures
            r == (self.environment == Environment::Development),
    {
        self.environment.is_development()
    }

    /// Whether the configuration is for tests.
    pub fn is_test(&self) -> (r: bool)
        ensures
            r == (self.environment == Environment::Test),
    {
        self.environment.is_test()
    }
}

/// Adapts the networking to a container: the core binds to every interface and keeps its
/// media driver in "/dev/shm/aeron". Nothing else changes.
pub fn apply_container_networking_overrides(config: &mut VexConfig)
    ensures
        final(config).core_networking.local_address@ == "0.0.0.0"@,
        final(config).core_networking.context_dir@ == "/dev/shm/aeron"@,
        final(config).core_networking == (CoreNetworkingConfig {
            local_address: final(config).core_networking.local_address,
            context_dir: final(config).core_networking.context_dir,
            ..old(config).core_networking
        }),
        final(config).environment == old(config).environment,
        final(config).gateway_networking == old(config).gateway_networking,
        final(config).logging == old(config).logging,
        final(config).symbols == old(config).symbols,
        final(config).kafka_broker == old(config).kafka_broker,
{
    config.core_networking.local_address = text("0.0.0.0");
    config.core_networking.context_dir = text("/dev/shm/aeron");
}

/// What `str::parse::<bool>` gives: `true` and `false` for exactly those words, else nothing.
pub open spec fn parsed_flag(s: Seq<char>) -> Option<bool> {
    if s == "true"@ {
        Some(true)
    } else if s == "false"@ {
        Some(false)
    } else {
        None
    }
}

/// Applies the value of the ENABLE_CORE_PINNING variable, if it is set: "true" or "false"
/// switch core pinning on or off; any other value, or none, changes nothing.
pub fn apply_core_pinning_override(config: &mut VexConfig, value: Option<&str>)
    ensures
        final(config).core_networking.enable_core_pinning == (match value {
            Some(v) => match parsed_flag(v@) {
                Some(b) => b,
                None => old(config).core_networking.enable_core_pinning,
            },
            None => old(config).core_networking.enable_core_pinning,
        }),
        final(config).core_networking == (CoreNetworkingConfig {
            enable_core_pinning: final(config).core_networking.enable_core_pinning,
            ..old(config).core_networking
        }),
        final(config).environment == old(config).environment,
        final(config).gateway_networking == old(config).gateway_networking,
        final(config).logging == old(config).logging,
        final(config).symbols == old(config).symbols,
        final(config).kafka_broker == old(config).kafka_broker,
{
    match value {
        Some(v) => {
            let s = text(v);
            if s == text("true") {
                config.core_networking.enable_core_pinning = true;
            } else if s == text("false") {
                config.core_networking.enable_core_pinning = false;
            }
        },
        None => {},
    }
}

impl Default for VexConfig {
    fn default() -> (r: VexConfig)
        ensures
            vex_defaults(r, Environment::Development),
    {
        Self::new(Environment::Development)
    }
}


/// The defaults of every environment pass validation: with the sampling rate of the defaults
/// (within [0, 1]), no rule of the core networking, the gateway networking, the logging or the
/// markets is broken, so `validate` answers `Ok`.
pub proof fn law_defaults_validate(c: VexConfig, env: Environment)
    requires
        vex_defaults(c, env),
    ensures
        core_networking_problem(c.core_networking) is None,
        gateway_networking_problem(c.gateway_networking) is None,
        logging_problem_with(c.logging, true) is None,
        symbols_valid(c.symbols.symbols@),
        forall|r: Result<(), ConfigError>| #[trigger] vex_result(r, c, true) ==> r is Ok,
{
    lemma_networking_defaults_valid(c.core_networking, c.gateway_networking);
    lemma_logging_defaults_valid(c.logging);
    lemma_default_markets_valid();
    assert(symbols_valid(Map::<u32, CoreMarketSpecification>::empty()));
}

} // verus!
