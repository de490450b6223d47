//! Networking configuration of the core and of the gateways.
use vstd::prelude::*;

use crate::config::environment::Environment;
use crate::config::error::{text, ConfigError};
use crate::model::{MAX_GATEWAYS, ORDERCOMMANDSIZE};

verus! {

/// Networking configuration of the core server.
#[derive(Debug, Clone)]
pub struct CoreNetworkingConfig {
    /// Directory of the underlying Aeron media driver.
    pub context_dir: String,
    /// Local address to bind to.
    pub local_address: String,
    /// Port for gateway introduction.
    pub initial_port: u16,
    /// Control port for gateway introduction.
    pub initial_control_port: u16,
    /// Base port of individual gateway connections.
    pub base_gateway_port: u16,
    /// Maximum number of gateways.
    pub max_gateways: u16,
    /// Lower bound of reserved session ids.
    pub reserved_session_id_low: i32,
    /// Upper bound of reserved session ids.
    pub reserved_session_id_high: i32,
    /// Whether gateways must authenticate.
    pub enable_authentication: bool,
    /// Identifier of the core.
    pub core_id: String,
    /// Buffer size of network operations, in bytes.
    pub buffer_size: usize,
    /// Connection retry attempts.
    pub retry_attempts: u32,
    /// Connection retry delay in milliseconds.
    pub retry_delay_ms: u64,
    /// Request control channel of the Aeron archive.
    pub request_control_channel: String,
    /// Response control channel of the Aeron archive.
    pub response_control_channel: String,
    /// Recording events channel of the Aeron archive.
    pub recording_events_channel: String,
    /// Whether processor threads are pinned to CPU cores.
    pub enable_core_pinning: bool,
}

/// Whether core pinning is on when a configuration file leaves it out: it is off.
pub fn default_enable_core_pinning() -> (r: bool)
    ensures
        !r,
{
    false
}

/// The development defaults of the core.
pub open spec fn core_development_defaults(c: CoreNetworkingConfig) -> bool {
    &&& c.context_dir@ == "/dev/shm/aeron-test-server"@
    &&& c.local_address@ == "127.0.0.1"@
    &&& c.initial_port == 3521
    &&& c.initial_control_port == 40002
    &&& c.base_gateway_port == 50000
    &&& c.max_gateways == 15
    &&& c.reserved_session_id_low == 1000
    &&& c.reserved_session_id_high == 9999
    &&& c.enable_authentication == false
    &&& c.core_id@ == "vex-core-dev"@
    &&& c.buffer_size == 1048576
    &&& c.retry_attempts == 3
    &&& c.retry_delay_ms == 1000
    &&& c.request_control_channel@ == "aeron:udp?endpoint=localhost:8010"@
    &&& c.response_control_channel@ == "aeron:udp?endpoint=localhost:0"@
    &&& c.recording_events_channel@ == "aeron:udp?endpoint=localhost:0"@
    &&& c.enable_core_pinning == false
}

/// The test defaults of the core.
pub open spec fn core_test_defaults(c: CoreNetworkingConfig) -> bool {
    &&& c.context_dir@ == "/dev/shm/aeron-test-server"@
    &&& c.local_address@ == "127.0.0.1"@
    &&& c.initial_port == 3521
    &&& c.initial_control_port == 40002
    &&& c.base_gateway_port == 50000
    &&& c.max_gateways == 15
    &&& c.reserved_session_id_low == 1000
    &&& c.reserved_session_id_high == 9999
    &&& c.enable_authentication == true
    &&& c.core_id@ == "vex-core-test"@
    &&& c.buffer_size == 1048576
    &&& c.retry_attempts == 3
    &&& c.retry_delay_ms == 1000
    &&& c.request_control_channel@ == "aeron:udp?endpoint=localhost:8010"@
    &&& c.response_control_channel@ == "aeron:udp?endpoint=localhost:0"@
    &&& c.recording_events_channel@ == "aeron:udp?endpoint=localhost:0"@
    &&& c.enable_core_pinning == false
}

/// The production defaults of the core.
pub open spec fn core_production_defaults(c: CoreNetworkingConfig) -> bool {
    &&& c.context_dir@ == "/var/lib/vex/aeron-core"@
    &&& c.local_address@ == "127.0.0.1"@
    &&& c.initial_port == 3521
    &&& c.initial_control_port == 3522
    &&& c.base_gateway_port == 50000
    &&& c.max_gateways == 1000
    &&& c.reserved_session_id_low == 1000
    &&& c.reserved_session_id_high == 9999
    &&& c.enable_authentication == true
    &&& c.core_id@ == "vex-core-prod"@
    &&& c.buffer_size == 4194304
    &&& c.retry_attempts == 5
    &&& c.retry_delay_ms == 2000
    &&& c.request_control_channel@ == "aeron:udp?endpoint=localhost:8010"@
    &&& c.response_control_channel@ == "aeron:udp?endpoint=localhost:0"@
    &&& c.recording_events_channel@ == "aeron:udp?endpoint=localhost:8012"@
    &&& c.enable_core_pinning == true
}

/// The message of the first rule the core configuration breaks, if any.
pub open spec fn core_networking_problem(c: CoreNetworkingConfig) -> Option<Seq<char>> {
    if c.initial_port == 0 {
        Some("Initial port cannot be 0"@)
    } else if c.initial_control_port == 0 {
        Some("Initial control port cannot be 0"@)
    } else if c.initial_port == c.initial_control_port {
        Some("Initial port and control port cannot be the same"@)
    } else if c.max_gateways == 0 {
        Some("Max gateways must be greater than 0"@)
    } else if c.reserved_session_id_low >= c.reserved_session_id_high {
        Some("Reserved session ID low must be less than high"@)
    } else if c.core_id@.len() == 0 {
        Some("Core ID cannot be empty"@)
    } else if c.buffer_size == 0 {
        Some("Buffer size must be greater than 0"@)
    } else if c.context_dir@.len() == 0 {
        Some("Context directory cannot be empty"@)
    } else {
        None
    }
}

/// The result of a network validation: `Ok` without a problem, else a network error with the
/// problem's message.
pub open spec fn network_result(r: Result<(), ConfigError>, problem: Option<Seq<char>>) -> bool {
    match problem {
        None => r is Ok,
        Some(m) => r is Err && r->Err_0 is NetworkError && r->Err_0->NetworkError_0@ == m,
    }
}

impl CoreNetworkingConfig {
    /// The defaults of the environment.
    pub fn for_environment(env: &Environment) -> (r: CoreNetworkingConfig)
        ensures
            *env == Environment::Development ==> core_development_defaults(r),
            *env == Environment::Test ==> core_test_defaults(r),
            *env == Environment::Production ==> core_production_defaults(r),
    {
        match env {
            Environment::Development => Self::development_defaults(),
            Environment::Test => Self::test_defaults(),
            Environment::Production => Self::production_defaults(),
        }
    }

    /// Development defaults: local settings, no authentication.
    pub fn development_defaults() -> (r: CoreNetworkingConfig)
        ensures
            core_development_defaults(r),
    {
        Self {
            context_dir: text("/dev/shm/aeron-test-server"),
            local_address: text("127.0.0.1"),
            initial_port: 3521,
            initial_control_port: 40002,
            base_gateway_port: 50000,
            max_gateways: 15,
            reserved_session_id_low: 1000,
            reserved_session_id_high: 9999,
            enable_authentication: false,
            core_id: text("vex-core-dev"),
            buffer_size: 1048576,
            retry_attempts: 3,
            retry_delay_ms: 1000,
            request_control_channel: text("aeron:udp?endpoint=localhost:8010"),
            response_control_channel: text("aeron:udp?endpoint=localhost:0"),
            recording_events_channel: text("aeron:udp?endpoint=localhost:0"),
            enable_core_pinning: false,
        }
    }

    /// Test defaults: local settings with authentication.
    pub fn test_defaults() -> (r: CoreNetworkingConfig)
        ensures
            core_test_defaults(r),
    {
        Self {
            context_dir: text("/dev/shm/aeron-test-server"),
            local_address: text("127.0.0.1"),
            initial_port: 3521,
            initial_control_port: 40002,
            base_gateway_port: 50000,
            max_gateways: 15,
            reserved_session_id_low: 1000,
            reserved_session_id_high: 9999,
            enable_authentication: true,
            core_id: text("vex-core-test"),
            buffer_size: 1048576,
            retry_attempts: 3,
            retry_delay_ms: 1000,
            request_control_channel: text("aeron:udp?endpoint=localhost:8010"),
            response_control_channel: text("aeron:udp?endpoint=localhost:0"),
            recording_events_channel: text("aeron:udp?endpoint=localhost:0"),
            enable_core_pinning: false,
        }
    }

    /// Production defaults: strict settings with authentication and core pinning.
    pub fn production_defaults() -> (r: CoreNetworkingConfig)
        ensures
            core_production_defaults(r),
    {
        Self {
            context_dir: text("/var/lib/vex/aeron-core"),
            local_address: text("127.0.0.1"),
            initial_port: 3521,
            initial_control_port: 3522,
            base_gateway_port: 50000,
            max_gateways: 1000,
            reserved_session_id_low: 1000,
            reserved_session_id_high: 9999,
            enable_authentication: true,
            core_id: text("vex-core-prod"),
            buffer_size: 4194304,
            retry_attempts: 5,
            retry_delay_ms: 2000,
            request_control_channel: text("aeron:udp?endpoint=localhost:8010"),
            response_control_channel: text("aeron:udp?endpoint=localhost:0"),
            recording_events_channel: text("aeron:udp?endpoint=localhost:8012"),
            enable_core_pinning: true,
        }
    }

    /// Checks the configuration: non-zero and distinct ports, at least one gateway, a
    /// non-empty reserved session id range, a core id, a buffer and a context directory.
    pub fn validate(&self) -> (r: Result<(), ConfigError>)
        ensures
            network_result(r, core_networking_problem(*self)),
    {
        if self.initial_port == 0 {
            return Err(ConfigError::network("Initial port cannot be 0"));
        }
        if self.initial_control_port == 0 {
            return Err(ConfigError::network("Initial control port cannot be 0"));
        }
        if self.initial_port == self.initial_control_port {
            return Err(ConfigError::network("Initial port and control port cannot be the same"));
        }
        if self.max_gateways == 0 {
            return Err(ConfigError::network("Max gateways must be greater than 0"));
        }
        if self.reserved_session_id_low >= self.reserved_session_id_high {
            return Err(ConfigError::network("Reserved session ID low must be less than high"));
        }
        if self.core_id.as_str().is_empty() {
            return Err(ConfigError::network("Core ID cannot be empty"));
        }
        if self.buffer_size == 0 {
            return Err(ConfigError::network("Buffer size must be greater than 0"));
        }
        if self.context_dir.as_str().is_empty() {
            return Err(ConfigError::network("Context directory cannot be empty"));
        }
        Ok(())
    }

    /// A copy of the configuration.
    pub fn duplicate(&self) -> (r: CoreNetworkingConfig)
        ensures
            r == *self,
    {
        Self {
            context_dir: self.context_dir.clone(),
            local_address: self.local_address.clone(),
            initial_port: self.initial_port,
            initial_control_port: self.initial_control_port,
            base_gateway_port: self.base_gateway_port,
            max_gateways: self.max_gateways,
            reserved_session_id_low: self.reserved_session_id_low,
            reserved_session_id_high: self.reserved_session_id_high,
            enable_authentication: self.enable_authentication,
            core_id: self.core_id.clone(),
            buffer_size: self.buffer_size,
            retry_attempts: self.retry_attempts,
            retry_delay_ms: self.retry_delay_ms,
            request_control_channel: self.request_control_channel.clone(),
            response_control_channel: self.response_control_channel.clone(),
            recording_events_channel: self.recording_events_channel.clone(),
            enable_core_pinning: self.enable_core_pinning,
        }
    }

    /// Takes over the other configuration completely.
    pub fn merge_with(&mut self, other: &CoreNetworkingConfig) -> (r: Result<(), ConfigError>)
        ensures
            r is Ok,
            *final(self) == *other,
    {
        *self = other.duplicate();
        Ok(())
    }
}

/// Networking configuration of a gateway that connects to the core.
#[derive(Debug, Clone)]
pub struct GatewayNetworkingConfig {
    /// Directory of the underlying Aeron media driver.
    pub context_dir: String,
    /// Local address of this gateway.
    pub local_address: String,
    /// Address of the core.
    pub core_address: String,
    /// Core port of the initial handshake.
    pub core_port: u16,
    /// Core control port.
    pub core_control_port: u16,
    /// Identifier of this gateway.
    pub gateway_id: u8,
    /// Maximum message size in bytes.
    pub max_message_size: usize,
    /// Whether heartbeats are sent.
    pub enable_heartbeat: bool,
    /// Heartbeat interval in seconds.
    pub heartbeat_interval_seconds: u64,
    /// Connection timeout in seconds.
    pub connection_timeout_seconds: u64,
    /// Reconnection attempts.
    pub reconnection_attempts: u32,
    /// Reconnection delay in milliseconds.
    pub reconnection_delay_ms: u64,
    /// Buffer size of gateway operations, in bytes.
    pub buffer_size: usize,
}

/// The development defaults of a gateway.
pub open spec fn gateway_development_defaults(c: GatewayNetworkingConfig) -> bool {
    &&& c.context_dir@ == "/tmp/aeron-test-client"@
    &&& c.local_address@ == "127.0.0.1"@
    &&& c.core_address@ == "127.0.0.1"@
    &&& c.core_port == 3521
    &&& c.core_control_port == 3522
    &&& c.gateway_id == 1
    &&& c.max_message_size == ORDERCOMMANDSIZE
    &&& c.enable_heartbeat == true
    &&& c.heartbeat_interval_seconds == 10
    &&& c.connection_timeout_seconds == 60
    &&& c.reconnection_attempts == 5
    &&& c.reconnection_delay_ms == 2000
    &&& c.buffer_size == 524288
}

/// The test defaults of a gateway.
pub open spec fn gateway_test_defaults(c: GatewayNetworkingConfig) -> bool {
    &&& c.context_dir@ == "/dev/shm/aeron-test-client"@
    &&& c.local_address@ == "127.0.0.1"@
    &&& c.core_address@ == "127.0.0.1"@
    &&& c.core_port == 3521
    &&& c.core_control_port == 3522
    &&& c.gateway_id == 1
    &&& c.max_message_size == ORDERCOMMANDSIZE
    &&& c.enable_heartbeat == true
    &&& c.heartbeat_interval_seconds == 5
    &&& c.connection_timeout_seconds == 30
    &&& c.reconnection_attempts == 3
    &&& c.reconnection_delay_ms == 1000
    &&& c.buffer_size == 262144
}

/// The production defaults of a gateway.
pub open spec fn gateway_production_defaults(c: GatewayNetworkingConfig) -> bool {
    &&& c.context_dir@ == "/var/lib/vex/aeron-gateway"@
    &&& c.local_address@ == "127.0.0.1"@
    &&& c.core_address@ == "127.0.0.1"@
    &&& c.core_port == 3521
    &&& c.core_control_port == 3522
    &&& c.gateway_id == 1
    &&& c.max_message_size == ORDERCOMMANDSIZE
    &&& c.enable_heartbeat == true
    &&& c.heartbeat_interval_seconds == 5
    &&& c.connection_timeout_seconds == 15
    &&& c.reconnection_attempts == 10
    &&& c.reconnection_delay_ms == 5000
    &&& c.buffer_size == 2097152
}

/// The message of the first rule the gateway configuration breaks, if any.
pub open spec fn gateway_networking_problem(c: GatewayNetworkingConfig) -> Option<Seq<char>> {
    if c.core_port == 0 {
        Some("Core port cannot be 0"@)
    } else if c.core_control_port == 0 {
        Some("Core control port cannot be 0"@)
    } else if c.core_port == c.core_control_port {
        Some("Core port and control port cannot be the same"@)
    } else if c.gateway_id > MAX_GATEWAYS {
        Some("Gateway ID must be between 0 and 16"@)
    } else if c.max_message_size == 0 {
        Some("Max message size must be greater than 0"@)
    } else if c.max_message_size > 10485760 {
        Some("Max message size cannot exceed 10MB"@)
    } else if c.connection_timeout_seconds == 0 {
        Some("Connection timeout must be greater than 0"@)
    } else if c.heartbeat_interval_seconds == 0 && c.enable_heartbeat {
        Some("Heartbeat interval must be greater than 0 when heartbeat is enabled"@)
    } else if c.context_dir@.len() == 0 {
        Some("Context directory cannot be empty"@)
    } else if c.buffer_size == 0 {
        Some("Buffer size must be greater than 0"@)
    } else {
        None
    }
}

impl GatewayNetworkingConfig {
    /// The defaults of the environment.
    pub fn for_environment(env: &Environment) -> (r: GatewayNetworkingConfig)
        ensures
            *env == Environment::Development ==> gateway_development_defaults(r),
            *env == Environment::Test ==> gateway_test_defaults(r),
            *env == Environment::Production ==> gateway_production_defaults(r),
    {
        match env {
            Environment::Development => Self::development_defaults(),
            Environment::Test => Self::test_defaults(),
            Environment::Production => Self::production_defaults(),
        }
    }

    /// Development defaults.
    pub fn development_defaults() -> (r: GatewayNetworkingConfig)
        ensures
            gateway_development_defaults(r),
    {
        Self {
            context_dir: text("/tmp/aeron-test-client"),
            local_address: text("127.0.0.1"),
            core_address: text("127.0.0.1"),
            core_port: 3521,
            core_control_port: 3522,
            gateway_id: 1,
            max_message_size: ORDERCOMMANDSIZE,
            enable_heartbeat: true,
            heartbeat_interval_seconds: 10,
            connection_timeout_seconds: 60,
            reconnection_attempts: 5,
            reconnection_delay_ms: 2000,
            buffer_size: 524288,
        }
    }

    /// Test defaults.
    pub fn test_defaults() -> (r: GatewayNetworkingConfig)
        ensures
            gateway_test_defaults(r),
    {
        Self {
            context_dir: text("/dev/shm/aeron-test-client"),
            local_address: text("127.0.0.1"),
            core_address: text("127.0.0.1"),
            core_port: 3521,
            core_control_port: 3522,
            gateway_id: 1,
            max_message_size: ORDERCOMMANDSIZE,
            enable_heartbeat: true,
            heartbeat_interval_seconds: 5,
            connection_timeout_seconds: 30,
            reconnection_attempts: 3,
            reconnection_delay_ms: 1000,
            buffer_size: 262144,
        }
    }

    /// Production defaults.
    pub fn production_defaults() -> (r: GatewayNetworkingConfig)
        ensures
            gateway_production_defaults(r),
    {
        Self {
            context_dir: text("/var/lib/vex/aeron-gateway"),
            local_address: text("127.0.0.1"),
            core_address: text("127.0.0.1"),
            core_port: 3521,
            core_control_port: 3522,
            gateway_id: 1,
            max_message_size: ORDERCOMMANDSIZE,
            enable_heartbeat: true,
            heartbeat_interval_seconds: 5,
            connection_timeout_seconds: 15,
            reconnection_attempts: 10,
            reconnection_delay_ms: 5000,
            buffer_size: 2097152,
        }
    }

    /// Checks the configuration: non-zero and distinct core ports, a gateway id of at most
    /// `MAX_GATEWAYS`, a message size between 1 byte and 10 MB, a connection timeout, a
    /// heartbeat interval when heartbeats are on, a context directory and a buffer.
    pub fn validate(&self) -> (r: Result<(), ConfigError>)
        ensures
            network_result(r, gateway_networking_problem(*self)),
    {
        if self.core_port == 0 {
            return Err(ConfigError::network("Core port cannot be 0"));
        }
        if self.core_control_port == 0 {
            return Err(ConfigError::network("Core control port cannot be 0"));
        }
        if self.core_port == self.core_control_port {
            return Err(ConfigError::network("Core port and control port cannot be the same"));
        }
        if self.gateway_id as usize > MAX_GATEWAYS {
            return Err(ConfigError::network("Gateway ID must be between 0 and 16"));
        }
        if self.max_message_size == 0 {
            return Err(ConfigError::network("Max message size must be greater than 0"));
        }
        if self.max_message_size > 10485760 {
            return Err(ConfigError::network("Max message size cannot exceed 10MB"));
        }
        if self.connection_timeout_seconds == 0 {
            return Err(ConfigError::network("Connection timeout must be greater than 0"));
        }
        if self.heartbeat_interval_seconds == 0 && self.enable_heartbeat {
            return Err(
                ConfigError::network("Heartbeat interval must be greater than 0 when heartbeat is enabled"),
            );
        }
        if self.context_dir.as_str().is_empty() {
            return Err(ConfigError::network("Context directory cannot be empty"));
        }
        if self.buffer_size == 0 {
            return Err(ConfigError::network("Buffer size must be greater than 0"));
        }
        Ok(())
    }

    /// A copy of the configuration.
    pub fn duplicate(&self) -> (r: GatewayNetworkingConfig)
        ensures
            r == *self,
    {
        Self {
            context_dir: self.context_dir.clone(),
            local_address: self.local_address.clone(),
            core_address: self.core_address.clone(),
            core_port: self.core_port,
            core_control_port: self.core_control_port,
            gateway_id: self.gateway_id,
            max_message_size: self.max_message_size,
            enable_heartbeat: self.enable_heartbeat,
            heartbeat_interval_seconds: self.heartbeat_interval_seconds,
            connection_timeout_seconds: self.connection_timeout_seconds,
            reconnection_attempts: self.reconnection_attempts,
            reconnection_delay_ms: self.reconnection_delay_ms,
            buffer_size: self.buffer_size,
        }
    }

    /// Takes over the other configuration completely.
    pub fn merge_with(&mut self, other: &GatewayNetworkingConfig) -> (r: Result<(), ConfigError>)
        ensures
            r is Ok,
            *final(self) == *other,
    {
        *self = other.duplicate();
        Ok(())
    }
}


/// The core and gateway networking defaults of every environment pass validation.
pub proof fn lemma_networking_defaults_valid(c: CoreNetworkingConfig, g: GatewayNetworkingConfig)
    requires
        core_development_defaults(c) || core_test_defaults(c) || core_production_defaults(c),
        gateway_development_defaults(g) || gateway_test_defaults(g) || gateway_production_defaults(
            g,
        ),
    ensures
        core_networking_problem(c) is None,
        gateway_networking_problem(g) is None,
{
    reveal_strlit("vex-core-dev");
    reveal_strlit("vex-core-test");
    reveal_strlit("vex-core-prod");
    reveal_strlit("/dev/shm/aeron-test-server");
    reveal_strlit("/var/lib/vex/aeron-core");
    reveal_strlit("/tmp/aeron-test-client");
    reveal_strlit("/dev/shm/aeron-test-client");
    reveal_strlit("/var/lib/vex/aeron-gateway");
}

} // verus!
