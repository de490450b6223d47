//! Logging configuration: levels, formats, outputs, and per-module overrides.
use vstd::prelude::*;

use crate::config::environment::Environment;
use crate::config::error::{text, ConfigError};
use crate::config::keyed::{
    distinct_names, entries_map, first_entry, lemma_lookup_at, Duplicate, NamedMap,
};
use crate::config::log_level::{log_rank, LogLevel};

verus! {

impl Duplicate for LogLevel {
    fn duplicate(&self) -> (r: LogLevel) {
        *self
    }
}

/// Format of log records.
#[derive(Debug, Clone, Copy, PartialEq, Eq, Structural)]
pub enum LogFormat {
    /// Human-readable format for development.
    Pretty,
    /// JSON records for structured logging.
    Json,
    /// Compact single-line records.
    Compact,
    /// Fully detailed records.
    Full,
}

/// Where log records go.
#[derive(Debug, Clone)]
pub enum LogOutput {
    /// The standard output.
    Stdout,
    /// The standard error.
    Stderr,
    /// A file.
    File {
        /// Path of the log file.
        path: String,
        /// Whether the file is rotated.
        rotate: bool,
        /// Size in bytes at which the file is rotated.
        max_size: Option<u64>,
        /// Number of rotated files kept.
        max_files: Option<u32>,
    },
    /// The system log.
    Syslog {
        /// Syslog facility.
        facility: String,
        /// Syslog identifier.
        ident: String,
    },
}

impl LogOutput {
    /// A copy of the output.
    pub fn duplicate(&self) -> (r: LogOutput)
        ensures
            r == *self,
    {
        match self {
            LogOutput::Stdout => LogOutput::Stdout,
            LogOutput::Stderr => LogOutput::Stderr,
            LogOutput::File { path, rotate, max_size, max_files } => LogOutput::File {
                path: path.clone(),
                rotate: *rotate,
                max_size: *max_size,
                max_files: *max_files,
            },
            LogOutput::Syslog { facility, ident } => LogOutput::Syslog {
                facility: facility.clone(),
                ident: ident.clone(),
            },
        }
    }
}

/// Logging configuration of the core. Its sampling rate is a floating-point number; the
/// application around this library holds and checks it.
#[derive(Debug, Clone)]
pub struct LoggingConfig {
    /// Global log level.
    pub level: LogLevel,
    /// Log format.
    pub format: LogFormat,
    /// Log outputs.
    pub outputs: Vec<LogOutput>,
    /// Log levels of single modules.
    pub module_levels: NamedMap<LogLevel>,
    /// Whether records carry their source location.
    pub include_location: bool,
    /// Whether records carry a timestamp.
    pub include_timestamp: bool,
    /// Whether records carry the thread id.
    pub include_thread_id: bool,
    /// Whether records carry span information.
    pub include_spans: bool,
    /// Custom fields of structured records.
    pub custom_fields: NamedMap<String>,
    /// Whether logging is asynchronous.
    pub async_logging: bool,
    /// Buffer size of asynchronous logging.
    pub async_buffer_size: usize,
}

/// The output is a file output with these settings.
pub open spec fn is_file_output(
    o: LogOutput,
    path: Seq<char>,
    rotate: bool,
    max_size: Option<u64>,
    max_files: Option<u32>,
) -> bool {
    match o {
        LogOutput::File { path: p, rotate: r, max_size: s, max_files: f } => p@ == path && r
            == rotate && s == max_size && f == max_files,
        _ => false,
    }
}

/// The output is a syslog output with these settings.
pub open spec fn is_syslog_output(o: LogOutput, facility: Seq<char>, ident: Seq<char>) -> bool {
    match o {
        LogOutput::Syslog { facility: f, ident: i } => f@ == facility && i@ == ident,
        _ => false,
    }
}

/// The development defaults: debug level, pretty records on the standard output.
pub open spec fn logging_development_defaults(c: LoggingConfig) -> bool {
    &&& c.level == LogLevel::Debug
    &&& c.format == LogFormat::Pretty
    &&& c.outputs@.len() == 1
    &&& c.outputs@[0] is Stdout
    &&& c.module_levels@ == map![
        "vex_core"@ => LogLevel::Debug,
        "networking"@ => LogLevel::Debug,
        "orderbook"@ => LogLevel::Info,
    ]
    &&& c.module_levels.wf()
    &&& c.include_location
    &&& c.include_timestamp
    &&& c.include_thread_id
    &&& c.include_spans
    &&& c.custom_fields@ == Map::<Seq<char>, String>::empty()
    &&& c.custom_fields.wf()
    &&& !c.async_logging
    &&& c.async_buffer_size == 1024
}

/// The test defaults: info level, JSON records to a rotated file.
pub open spec fn logging_test_defaults(c: LoggingConfig) -> bool {
    &&& c.level == LogLevel::Info
    &&& c.format == LogFormat::Json
    &&& c.outputs@.len() == 1
    &&& is_file_output(c.outputs@[0], "/tmp/vex-test.log"@, true, Some(10485760u64), Some(5u32))
    &&& c.module_levels@ == map![
        "vex_core"@ => LogLevel::Info,
        "networking"@ => LogLevel::Warn,
        "test"@ => LogLevel::Debug,
    ]
    &&& c.module_levels.wf()
    &&& !c.include_location
    &&& c.include_timestamp
    &&& !c.include_thread_id
    &&& !c.include_spans
    &&& c.custom_fields@.len() == 1
    &&& c.custom_fields@.contains_key("environment"@)
    &&& c.custom_fields@["environment"@]@ == "test"@
    &&& c.custom_fields.wf()
    &&& c.async_logging
    &&& c.async_buffer_size == 512
}

/// The production defaults: info level, JSON records to a rotated file and to syslog.
pub open spec fn logging_production_defaults(c: LoggingConfig) -> bool {
    &&& c.level == LogLevel::Info
    &&& c.format == LogFormat::Json
    &&& c.outputs@.len() == 2
    &&& is_file_output(
        c.outputs@[0],
        "/var/log/vex/vex-core.log"@,
        true,
        Some(104857600u64),
        Some(10u32),
    )
    &&& is_syslog_output(c.outputs@[1], "daemon"@, "vex-core"@)
    &&& c.module_levels@ == map![
        "vex_core"@ => LogLevel::Info,
        "networking"@ => LogLevel::Warn,
        "security"@ => LogLevel::Debug,
    ]
    &&& c.module_levels.wf()
    &&& !c.include_location
    &&& c.include_timestamp
    &&& !c.include_thread_id
    &&& c.include_spans
    &&& c.custom_fields@.len() == 2
    &&& c.custom_fields@.contains_key("environment"@)
    &&& c.custom_fields@["environment"@]@ == "production"@
    &&& c.custom_fields@.contains_key("service"@)
    &&& c.custom_fields@["service"@]@ == "vex-core"@
    &&& c.custom_fields.wf()
    &&& c.async_logging
    &&& c.async_buffer_size == 4096
}

/// The message of the first rule the output breaks, if any.
pub open spec fn output_problem(o: LogOutput) -> Option<Seq<char>> {
    match o {
        LogOutput::File { path, rotate, max_size, max_files } => {
            if path@.len() == 0 {
                Some("Log file path cannot be empty"@)
            } else if max_size == Some(0u64) {
                Some("Max file size must be greater than 0"@)
            } else if max_size is Some && max_size->Some_0 < 1024 {
                Some("Max file size should be at least 1KB"@)
            } else if max_files == Some(0u32) {
                Some("Max files must be greater than 0"@)
            } else {
                None
            }
        },
        LogOutput::Syslog { facility, ident } => {
            if facility@.len() == 0 {
                Some("Syslog facility cannot be empty"@)
            } else if ident@.len() == 0 {
                Some("Syslog ident cannot be empty"@)
            } else {
                None
            }
        },
        _ => None,
    }
}

/// The problem of the first output from position `i` on that has one, if any.
pub open spec fn first_output_problem(outs: Seq<LogOutput>, i: int) -> Option<Seq<char>>
    decreases outs.len() - i,
{
    if i < 0 || i >= outs.len() {
        None
    } else {
        match output_problem(outs[i]) {
            Some(m) => Some(m),
            None => first_output_problem(outs, i + 1),
        }
    }
}

/// The problem of a module override, if it has one.
pub open spec fn module_problem(e: (String, LogLevel)) -> Option<Seq<char>> {
    if e.0@.len() == 0 {
        Some("Module name cannot be empty"@)
    } else if e.1 == LogLevel::Off && e.0@ == "vex_core"@ {
        Some("Cannot disable logging for core module"@)
    } else {
        None
    }
}

/// The problem of the first module override from position `i` on that has one, if any.
pub open spec fn first_module_problem(s: Seq<(String, LogLevel)>, i: int) -> Option<Seq<char>>
    decreases s.len() - i,
{
    if i < 0 || i >= s.len() {
        None
    } else {
        match module_problem(s[i]) {
            Some(m) => Some(m),
            None => first_module_problem(s, i + 1),
        }
    }
}

/// The problem with the outputs: none at all, or the first output's problem.
pub open spec fn outputs_problem(c: LoggingConfig) -> Option<Seq<char>> {
    if c.outputs@.len() == 0 {
        Some("At least one log output must be configured"@)
    } else {
        first_output_problem(c.outputs@, 0)
    }
}

/// The problem with the other settings: an empty buffer, or the first module override's
/// problem.
pub open spec fn settings_problem(c: LoggingConfig) -> Option<Seq<char>> {
    if c.async_buffer_size == 0 {
        Some("Async buffer size must be greater than 0"@)
    } else {
        first_module_problem(c.module_levels.entries@, 0)
    }
}

/// The first problem of the configuration, outputs first.
pub open spec fn logging_problem(c: LoggingConfig) -> Option<Seq<char>> {
    match outputs_problem(c) {
        Some(m) => Some(m),
        None => settings_problem(c),
    }
}

/// The result of a logging validation: `Ok` without a problem, else a logging error with the
/// problem's message.
pub open spec fn logging_result(r: Result<(), ConfigError>, problem: Option<Seq<char>>) -> bool {
    match problem {
        None => r is Ok,
        Some(m) => r is Err && r->Err_0 is LoggingError && r->Err_0->LoggingError_0@ == m,
    }
}

/// `merged` is `base` after taking over `other`: the module levels and custom fields of both,
/// those of `other` winning, and every other setting of `other`.
pub open spec fn logging_merged(base: LoggingConfig, other: LoggingConfig, merged: LoggingConfig) -> bool {
    &&& merged.module_levels@ == base.module_levels@.union_prefer_right(other.module_levels@)
    &&& merged.custom_fields@ == base.custom_fields@.union_prefer_right(other.custom_fields@)
    &&& base.module_levels.wf() ==> merged.module_levels.wf()
    &&& base.custom_fields.wf() ==> merged.custom_fields.wf()
    &&& merged.level == other.level
    &&& merged.format == other.format
    &&& merged.outputs@ == other.outputs@
    &&& merged.include_location == other.include_location
    &&& merged.include_timestamp == other.include_timestamp
    &&& merged.include_thread_id == other.include_thread_id
    &&& merged.include_spans == other.include_spans
    &&& merged.async_logging == other.async_logging
    &&& merged.async_buffer_size == other.async_buffer_size
}

/// The first problem of the configuration when the sampling rate, held outside, is or is
/// not within [0, 1]: outputs first, then the sampling rate, then the other settings.
pub open spec fn logging_problem_with(c: LoggingConfig, sampling_in_range: bool) -> Option<Seq<char>> {
    match outputs_problem(c) {
        Some(m) => Some(m),
        None => if !sampling_in_range {
            Some("Sampling rate must be between 0.0 and 1.0"@)
        } else {
            settings_problem(c)
        },
    }
}

/// The level that applies to a module: its own if it has one, else the global level.
pub open spec fn effective_level(c: LoggingConfig, module: Seq<char>) -> LogLevel {
    if c.module_levels@.contains_key(module) {
        c.module_levels@[module]
    } else {
        c.level
    }
}

/// Whether records of a level are written, for a module or globally: the level is at least
/// the one that applies and that one is not `Off`.
pub open spec fn level_enabled(c: LoggingConfig, level: LogLevel, module: Option<Seq<char>>) -> bool {
    let applies = match module {
        Some(m) => effective_level(c, m),
        None => c.level,
    };
    log_rank(level) >= log_rank(applies) && applies != LogLevel::Off
}

fn copy_outputs(v: &Vec<LogOutput>) -> (r: Vec<LogOutput>)
    ensures
        r@ == v@,
{
    let mut r: Vec<LogOutput> = Vec::new();
    let mut i: usize = 0;
    while i < v.len()
        invariant
            i <= v@.len(),
            r@ == v@.subrange(0, i as int),
        decreases v@.len() - i,
    {
        r.push(v[i].duplicate());
        i = i + 1;
    }
    assert(v@.subrange(0, v@.len() as int) =~= v@);
    r
}

impl LoggingConfig {
    /// The defaults of the environment.
    pub fn for_environment(env: &Environment) -> (r: LoggingConfig)
        ensures
            *env == Environment::Development ==> logging_development_defaults(r),
            *env == Environment::Test ==> logging_test_defaults(r),
            *env == Environment::Production ==> logging_production_defaults(r),
    {
        match env {
            Environment::Development => Self::development_defaults(),
            Environment::Test => Self::test_defaults(),
            Environment::Production => Self::production_defaults(),
        }
    }

    /// Development defaults: verbose records on the standard output.
    pub fn development_defaults() -> (r: LoggingConfig)
        ensures
            logging_development_defaults(r),
    {
        let mut module_levels = NamedMap::new();
        module_levels.insert(text("vex_core"), LogLevel::Debug);
        module_levels.insert(text("networking"), LogLevel::Debug);
        module_levels.insert(text("orderbook"), LogLevel::Info);
        let mut outputs = Vec::new();
        outputs.push(LogOutput::Stdout);
        let r = LoggingConfig {
            level: LogLevel::Debug,
            format: LogFormat::Pretty,
            outputs,
            module_levels,
            include_location: true,
            include_timestamp: true,
            include_thread_id: true,
            include_spans: true,
            custom_fields: NamedMap::new(),
            async_logging: false,
            async_buffer_size: 1024,
        };
        assert(r.module_levels@ =~= map![
            "vex_core"@ => LogLevel::Debug,
            "networking"@ => LogLevel::Debug,
            "orderbook"@ => LogLevel::Info,
        ]);
        r
    }

    /// Test defaults: structured records to a rotated file.
    pub fn test_defaults() -> (r: LoggingConfig)
        ensures
            logging_test_defaults(r),
    {
        let mut module_levels = NamedMap::new();
        module_levels.insert(text("vex_core"), LogLevel::Info);
        module_levels.insert(text("networking"), LogLevel::Warn);
        module_levels.insert(text("test"), LogLevel::Debug);
        let mut custom_fields = NamedMap::new();
        custom_fields.insert(text("environment"), text("test"));
        let mut outputs = Vec::new();
        outputs.push(
            LogOutput::File {
                path: text("/tmp/vex-test.log"),
                rotate: true,
                max_size: Some(10485760),
                max_files: Some(5),
            },
        );
        let r = LoggingConfig {
            level: LogLevel::Info,
            format: LogFormat::Json,
            outputs,
            module_levels,
            include_location: false,
            include_timestamp: true,
            include_thread_id: false,
            include_spans: false,
            custom_fields,
            async_logging: true,
            async_buffer_size: 512,
        };
        assert(r.module_levels@ =~= map![
            "vex_core"@ => LogLevel::Info,
            "networking"@ => LogLevel::Warn,
            "test"@ => LogLevel::Debug,
        ]);
        assert(r.custom_fields@.dom() =~= set!["environment"@]);
        r
    }

    /// Production defaults: structured records to a rotated file and to syslog.
    pub fn production_defaults() -> (r: LoggingConfig)
        ensures
            logging_production_defaults(r),
    {
        let mut module_levels = NamedMap::new();
        module_levels.insert(text("vex_core"), LogLevel::Info);
        module_levels.insert(text("networking"), LogLevel::Warn);
        module_levels.insert(text("security"), LogLevel::Debug);
        let mut custom_fields = NamedMap::new();
        custom_fields.insert(text("environment"), text("production"));
        custom_fields.insert(text("service"), text("vex-core"));
        let mut outputs = Vec::new();
        outputs.push(
            LogOutput::File {
                path: text("/var/log/vex/vex-core.log"),
                rotate: true,
                max_size: Some(104857600),
                max_files: Some(10),
            },
        );
        outputs.push(LogOutput::Syslog { facility: text("daemon"), ident: text("vex-core") });
        let r = LoggingConfig {
            level: LogLevel::Info,
            format: LogFormat::Json,
            outputs,
            module_levels,
            include_location: false,
            include_timestamp: true,
            include_thread_id: false,
            include_spans: true,
            custom_fields,
            async_logging: true,
            async_buffer_size: 4096,
        };
        assert(r.module_levels@ =~= map![
            "vex_core"@ => LogLevel::Info,
            "networking"@ => LogLevel::Warn,
            "security"@ => LogLevel::Debug,
        ]);
        proof {
            reveal_strlit("environment");
            reveal_strlit("service");
        }
        assert(r.custom_fields@.dom() =~= set!["environment"@, "service"@]);
        assert("environment"@[0] != "service"@[0]);
        r
    }

    /// Checks one output: a file needs a path, a size of at least 1KB and at least one
    /// rotated file where these are set; syslog needs a facility and an ident.
    pub fn validate_output(&self, output: &LogOutput) -> (r: Result<(), ConfigError>)
        ensures
            logging_result(r, output_problem(*output)),
    {
        match output {
            LogOutput::File { path, max_size, max_files, .. } => {
                if path.as_str().is_empty() {
                    return Err(ConfigError::logging("Log file path cannot be empty"));
                }
                match max_size {
                    Some(size) => {
                        if *size == 0 {
                            return Err(ConfigError::logging("Max file size must be greater than 0"));
                        }
                        if *size < 1024 {
                            return Err(ConfigError::logging("Max file size should be at least 1KB"));
                        }
                    },
                    None => {},
                }
                match max_files {
                    Some(files) => {
                        if *files == 0 {
                            return Err(ConfigError::logging("Max files must be greater than 0"));
                        }
                    },
                    None => {},
                }
            },
            LogOutput::Syslog { facility, ident } => {
                if facility.as_str().is_empty() {
                    return Err(ConfigError::logging("Syslog facility cannot be empty"));
                }
                if ident.as_str().is_empty() {
                    return Err(ConfigError::logging("Syslog ident cannot be empty"));
                }
            },
            _ => {},
        }
        Ok(())
    }

    /// Checks that there is an output and that every output is well set.
    pub fn validate_outputs(&self) -> (r: Result<(), ConfigError>)
        ensures
            logging_result(r, outputs_problem(*self)),
    {
        if self.outputs.len() == 0 {
            return Err(ConfigError::logging("At least one log output must be configured"));
        }
        let n = self.outputs.len();
        let mut i: usize = 0;
        while i < n
            invariant
                i <= n,
                n == self.outputs@.len(),
                n > 0,
                first_output_problem(self.outputs@, 0) == first_output_problem(
                    self.outputs@,
                    i as int,
                ),
            decreases n - i,
        {
            match self.validate_output(&self.outputs[i]) {
                Ok(()) => {},
                Err(e) => {
                    return Err(e);
                },
            }
            i = i + 1;
        }
        Ok(())
    }

    /// Checks the buffer size and the module overrides: no empty module name, and the core
    /// module is never switched off.
    pub fn validate_settings(&self) -> (r: Result<(), ConfigError>)
        ensures
            logging_result(r, settings_problem(*self)),
    {
        if self.async_buffer_size == 0 {
            return Err(ConfigError::logging("Async buffer size must be greater than 0"));
        }
        let entries = &self.module_levels.entries;
        let n = entries.len();
        let core = text("vex_core");
        let mut i: usize = 0;
        while i < n
            invariant
                i <= n,
                n == entries@.len(),
                core@ == "vex_core"@,
                self.async_buffer_size != 0,
                entries@ == self.module_levels.entries@,
                first_module_problem(entries@, 0) == first_module_problem(entries@, i as int),
            decreases n - i,
        {
            if entries[i].0.as_str().is_empty() {
                return Err(ConfigError::logging("Module name cannot be empty"));
            }
            if entries[i].1 == LogLevel::Off && entries[i].0 == core {
                return Err(ConfigError::logging("Cannot disable logging for core module"));
            }
            i = i + 1;
        }
        Ok(())
    }

    /// Checks the whole configuration: outputs first, then the other settings.
    pub fn validate(&self) -> (r: Result<(), ConfigError>)
        ensures
            logging_result(r, logging_problem(*self)),
    {
        match self.validate_outputs() {
            Ok(()) => {},
            Err(e) => {
                return Err(e);
            },
        }
        self.validate_settings()
    }

    /// Checks the whole configuration, given whether the sampling rate, which is held outside
    /// this library, lies within [0, 1]: outputs, then the sampling rate, then the other
    /// settings.
    pub fn validate_with_sampling(&self, sampling_in_range: bool) -> (r: Result<(), ConfigError>)
        ensures
            logging_result(r, logging_problem_with(*self, sampling_in_range)),
    {
        match self.validate_outputs() {
            Ok(()) => {},
            Err(e) => {
                return Err(e);
            },
        }
        if !sampling_in_range {
            return Err(ConfigError::logging("Sampling rate must be between 0.0 and 1.0"));
        }
        self.validate_settings()
    }

    /// Takes over the other configuration: its module levels and custom fields are added to
    /// these (its values winning), everything else is replaced by its settings.
    pub fn merge_with(&mut self, other: &LoggingConfig) -> (r: Result<(), ConfigError>)
        ensures
            r is Ok,
            logging_merged(*old(self), *other, *final(self)),
    {
        self.module_levels.merge_from(&other.module_levels);
        self.custom_fields.merge_from(&other.custom_fields);
        self.level = other.level;
        self.format = other.format;
        self.outputs = copy_outputs(&other.outputs);
        self.include_location = other.include_location;
        self.include_timestamp = other.include_timestamp;
        self.include_thread_id = other.include_thread_id;
        self.include_spans = other.include_spans;
        self.async_logging = other.async_logging;
        self.async_buffer_size = other.async_buffer_size;
        Ok(())
    }

    /// The level that applies to a module.
    pub fn get_module_level(&self, module: &str) -> (r: &LogLevel)
        ensures
            *r == effective_level(*self, module@),
    {
        match self.module_levels.get(module) {
            Some(l) => l,
            None => &self.level,
        }
    }

    /// Sets the level of a module.
    pub fn set_module_level(&mut self, module: String, level: LogLevel)
        ensures
            final(self).module_levels@ == old(self).module_levels@.insert(module@, level),
            old(self).module_levels.wf() ==> final(self).module_levels.wf(),
            final(self).level == old(self).level,
            final(self).custom_fields == old(self).custom_fields,
            final(self).outputs == old(self).outputs,
    {
        self.module_levels.insert(module, level);
    }

    /// Adds a custom field to structured records.
    pub fn add_custom_field(&mut self, key: String, value: String)
        ensures
            final(self).custom_fields@ == old(self).custom_fields@.insert(key@, value),
            old(self).custom_fields.wf() ==> final(self).custom_fields.wf(),
            final(self).level == old(self).level,
            final(self).module_levels == old(self).module_levels,
            final(self).outputs == old(self).outputs,
    {
        self.custom_fields.insert(key, value);
    }

    /// Whether records of the level are written, for the module if one is given.
    pub fn is_enabled(&self, level: &LogLevel, module: Option<&str>) -> (r: bool)
        ensures
            r == level_enabled(
                *self,
                *level,
                match module {
                    Some(m) => Some(m@),
                    None => None,
                },
            ),
    {
        let applies = match module {
            Some(m) => self.get_module_level(m),
            None => &self.level,
        };
        level.rank() >= applies.rank() && *applies != LogLevel::Off
    }
}


proof fn lemma_no_module_problem_from(s: Seq<(String, LogLevel)>, i: int)
    requires
        0 <= i <= s.len(),
        distinct_names(s),
        forall|k: Seq<char>| #[trigger] entries_map(s).contains_key(k) ==> k.len() > 0 && !(k
            == "vex_core"@ && entries_map(s)[k] == LogLevel::Off),
    ensures
        first_module_problem(s, i) is None,
    decreases s.len() - i,
{
    if i < s.len() {
        lemma_no_module_problem_from(s, i + 1);
        assert(first_entry(s, s[i].0@, i));
        lemma_lookup_at(s, s[i].0@, i);
        assert(entries_map(s).contains_key(s[i].0@));
    }
}

/// The logging defaults of every environment pass validation, given a sampling rate within
/// [0, 1] (the defaults' rate is 1).
pub proof fn lemma_logging_defaults_valid(c: LoggingConfig)
    requires
        logging_development_defaults(c) || logging_test_defaults(c) || logging_production_defaults(
            c,
        ),
    ensures
        logging_problem_with(c, true) is None,
{
    reveal_strlit("vex_core");
    reveal_strlit("networking");
    reveal_strlit("orderbook");
    reveal_strlit("test");
    reveal_strlit("security");
    reveal_strlit("/tmp/vex-test.log");
    reveal_strlit("/var/log/vex/vex-core.log");
    reveal_strlit("daemon");
    reveal_strlit("vex-core");
    let outs = c.outputs@;
    assert(first_output_problem(outs, outs.len() as int) is None);
    if outs.len() == 2 {
        assert(output_problem(outs[1]) is None);
        assert(first_output_problem(outs, 1) is None);
    }
    assert(output_problem(outs[0]) is None);
    assert(first_output_problem(outs, 0) is None);
    lemma_no_module_problem_from(c.module_levels.entries@, 0);
}


/// Which records are written: globally, a record is written when the global level is not
/// `Off` and the record's level is at least it; a module with a level of its own uses that
/// level in the same way; a module without one behaves exactly as the global setting; and a
/// record of a higher level is written wherever one of a lower level is.
pub proof fn law_module_levels_fall_back_to_global(c: LoggingConfig, level: LogLevel, higher: LogLevel, m: Seq<char>)
    ensures
        level_enabled(c, level, None) <==> (c.level != LogLevel::Off && log_rank(level) >= log_rank(
            c.level,
        )),
        !c.module_levels@.contains_key(m) ==> (level_enabled(c, level, Some(m)) <==> level_enabled(
            c,
            level,
            None,
        )),
        c.module_levels@.contains_key(m) ==> (level_enabled(c, level, Some(m)) <==> (
        c.module_levels@[m] != LogLevel::Off && log_rank(level) >= log_rank(c.module_levels@[m]))),
        log_rank(higher) >= log_rank(level) ==> (level_enabled(c, level, Some(m)) ==> level_enabled(
            c,
            higher,
            Some(m),
        )) && (level_enabled(c, level, None) ==> level_enabled(c, higher, None)),
{
}

} // verus!
