//! Errors of configuration management.
use vstd::prelude::*;

verus! {

/// What went wrong with a configuration.
#[derive(Debug, Clone)]
pub enum ConfigError {
    /// Reading or writing a configuration file failed.
    IoError(String),
    /// A configuration file could not be parsed.
    ParseError(String),
    /// A configuration could not be serialized.
    SerializationError(String),
    /// A configuration is not valid.
    ValidationError(String),
    /// The environment variables are wrong.
    EnvironmentError(String),
    /// No configuration was found.
    NotFound(String),
    /// Two configurations could not be merged.
    MergeError(String),
    /// The network configuration is not valid.
    NetworkError(String),
    /// The logging configuration is not valid.
    LoggingError(String),
}

/// The text of a configuration error: its kind, a colon, and its message.
pub open spec fn config_error_text(e: ConfigError) -> Seq<char> {
    match e {
        ConfigError::IoError(m) => "IO error: "@ + m@,
        ConfigError::ParseError(m) => "Parse error: "@ + m@,
        ConfigError::SerializationError(m) => "Serialization error: "@ + m@,
        ConfigError::ValidationError(m) => "Validation error: "@ + m@,
        ConfigError::EnvironmentError(m) => "Environment variable error: "@ + m@,
        ConfigError::NotFound(m) => "Configuration not found: "@ + m@,
        ConfigError::MergeError(m) => "Merge error: "@ + m@,
        ConfigError::NetworkError(m) => "Network configuration error: "@ + m@,
        ConfigError::LoggingError(m) => "Logging configuration error: "@ + m@,
    }
}

pub(crate) fn text(s: &str) -> (r: String)
    ensures
        r@ == s@,
{
    String::from_str(s)
}

impl ConfigError {
    /// The text of the error: its kind, a colon, and its message.
    pub fn to_string(&self) -> (r: String)
        ensures
            r@ == config_error_text(*self),
    {
        match self {
            ConfigError::IoError(m) => text("IO error: ").concat(m.as_str()),
            ConfigError::ParseError(m) => text("Parse error: ").concat(m.as_str()),
            ConfigError::SerializationError(m) => text("Serialization error: ").concat(m.as_str()),
            ConfigError::ValidationError(m) => text("Validation error: ").concat(m.as_str()),
            ConfigError::EnvironmentError(m) => text("Environment variable error: ").concat(
                m.as_str(),
            ),
            ConfigError::NotFound(m) => text("Configuration not found: ").concat(m.as_str()),
            ConfigError::MergeError(m) => text("Merge error: ").concat(m.as_str()),
            ConfigError::NetworkError(m) => text("Network configuration error: ").concat(
                m.as_str(),
            ),
            ConfigError::LoggingError(m) => text("Logging configuration error: ").concat(
                m.as_str(),
            ),
        }
    }

    /// A validation error with the message.
    pub fn validation(msg: &str) -> (r: ConfigError)
        ensures
            r is ValidationError && r->ValidationError_0@ == msg@,
    {
        ConfigError::ValidationError(text(msg))
    }

    /// An I/O error with the message.
    pub fn io(msg: &str) -> (r: ConfigError)
        ensures
            r is IoError && r->IoError_0@ == msg@,
    {
        ConfigError::IoError(text(msg))
    }

    /// A parse error with the message.
    pub fn parse(msg: &str) -> (r: ConfigError)
        ensures
            r is ParseError && r->ParseError_0@ == msg@,
    {
        ConfigError::ParseError(text(msg))
    }

    /// A not-found error with the message.
    pub fn not_found(msg: &str) -> (r: ConfigError)
        ensures
            r is NotFound && r->NotFound_0@ == msg@,
    {
        ConfigError::NotFound(text(msg))
    }

    /// A network configuration error with the message.
    pub fn network(msg: &str) -> (r: ConfigError)
        ensures
            r is NetworkError && r->NetworkError_0@ == msg@,
    {
        ConfigError::NetworkError(text(msg))
    }

    /// A logging configuration error with the message.
    pub fn logging(msg: &str) -> (r: ConfigError)
        ensures
            r is LoggingError && r->LoggingError_0@ == msg@,
    {
        ConfigError::LoggingError(text(msg))
    }
}

} // verus!
