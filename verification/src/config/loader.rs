//! Decisions of configuration loading: which environment, which files, in which format, and
//! what to do when none is found. Reading the files and the process environment is left to
//! the caller, which hands the results to these functions.
use vstd::prelude::*;

use crate::config::environment::Environment;
use crate::config::error::{text, ConfigError};
use crate::config::vex::{
    different_environments_message, outcome, vex_defaults, vex_merged, vex_result, VexConfig,
};

verus! {

/// How a configuration file is written.
#[derive(Debug, Clone, Copy, PartialEq, Eq, Structural)]
pub enum FileFormat {
    /// TOML.
    Toml,
    /// YAML.
    Yaml,
    /// JSON.
    Json,
    /// INI.
    Ini,
}

/// What `std::path::Path::extension` gives for a path, as text.
pub uninterp spec fn path_extension_of(path: Seq<char>) -> Option<Seq<char>>;

/// `std::path::Path::extension` of the path, as text: what follows the last dot of the final
/// component, if there is one. The result is named, not stated.
#[verifier::external_body]
fn path_extension(path: &str) -> (r: Option<String>)
    ensures
        (match r {
            Some(e) => Some(e@),
            None => None,
        }) == path_extension_of(path@),
{
    match std::path::Path::new(path).extension() {
        Some(e) => match e.to_str() {
            Some(s) => Some(s.to_string()),
            None => None,
        },
        None => None,
    }
}

/// What `Debug` writes for a list of strings.
pub uninterp spec fn debug_list_of(items: Seq<Seq<char>>) -> Seq<char>;

/// `Debug` of a list of strings (`format!("{:?}", ..)`): the quoted, escaped items between
/// brackets. The result is named, not stated.
#[verifier::external_body]
fn debug_list(items: &Vec<String>) -> (r: String)
    ensures
        r@ == debug_list_of(items@.map_values(|s: String| s@)),
{
    format!("{:?}", items)
}

/// The format that a file extension denotes, or the parse error's message.
pub open spec fn format_of_extension(ext: Option<Seq<char>>) -> Result<FileFormat, Seq<char>> {
    match ext {
        Some(e) => if e == "toml"@ {
            Ok(FileFormat::Toml)
        } else if e == "yaml"@ || e == "yml"@ {
            Ok(FileFormat::Yaml)
        } else if e == "json"@ {
            Ok(FileFormat::Json)
        } else if e == "ini"@ {
            Ok(FileFormat::Ini)
        } else {
            Err("Unsupported file format: "@ + e)
        },
        None => Err("No file extension found"@),
    }
}

/// A parse error whose message is the given one.
pub open spec fn is_parse_error(e: ConfigError, m: Seq<char>) -> bool {
    e is ParseError && e->ParseError_0@ == m
}

/// The format of a file, by its path, or the parse error for it.
pub open spec fn format_result(r: Result<FileFormat, ConfigError>, path: Seq<char>) -> bool {
    match format_of_extension(path_extension_of(path)) {
        Ok(f) => r == Ok::<FileFormat, ConfigError>(f),
        Err(m) => r is Err && is_parse_error(r->Err_0, m),
    }
}

/// The message when no environment was selected.
pub open spec fn no_environment_message() -> Seq<char> {
    "No environment selected. Set one of VEX_ENV, ENVIRONMENT, ENV, or NODE_ENV to development, test, or production"@
}

/// The message when none of the search paths holds a file.
pub open spec fn no_files_message(paths: Seq<String>) -> Seq<char> {
    "No configuration files found in search paths: "@ + debug_list_of(
        paths.map_values(|s: String| s@),
    )
}

/// The message for saving to a file whose extension names no supported format.
pub open spec fn unsupported_save_message() -> Seq<char> {
    "Unsupported file format. Use .toml, .json, .yaml, or .yml"@
}

/// How a configuration is written when it is saved.
#[derive(Debug, Clone, Copy, PartialEq, Eq, Structural)]
pub enum SaveFormat {
    /// TOML.
    Toml,
    /// JSON.
    Json,
    /// YAML.
    Yaml,
}

/// The format a configuration is saved in, by the file's extension: toml, json, yaml or yml;
/// any other extension, or none, is refused.
pub fn save_format(path: &str) -> (r: Result<SaveFormat, ConfigError>)
    ensures
        match path_extension_of(path@) {
            Some(e) => if e == "toml"@ {
                r == Ok::<SaveFormat, ConfigError>(SaveFormat::Toml)
            } else if e == "json"@ {
                r == Ok::<SaveFormat, ConfigError>(SaveFormat::Json)
            } else if e == "yaml"@ || e == "yml"@ {
                r == Ok::<SaveFormat, ConfigError>(SaveFormat::Yaml)
            } else {
                r is Err && r->Err_0 is ValidationError && r->Err_0->ValidationError_0@
                    == unsupported_save_message()
            },
            None => r is Err && r->Err_0 is ValidationError && r->Err_0->ValidationError_0@
                == unsupported_save_message(),
        },
{
    match path_extension(path) {
        Some(ext) => {
            if ext == text("toml") {
                return Ok(SaveFormat::Toml);
            } else if ext == text("json") {
                return Ok(SaveFormat::Json);
            } else if ext == text("yaml") || ext == text("yml") {
                return Ok(SaveFormat::Yaml);
            }
        },
        None => {},
    }
    Err(ConfigError::ValidationError(text("Unsupported file format. Use .toml, .json, .yaml, or .yml")))
}

/// Loads configurations: where to search, which environment variables to read, and whether
/// missing files are acceptable.
pub struct ConfigLoader {
    search_paths: Vec<String>,
    env_prefix: Option<String>,
    allow_missing: bool,
}

impl ConfigLoader {
    /// The paths searched instead of the environment's defaults (none: the defaults).
    pub closed spec fn paths(&self) -> Seq<Seq<char>> {
        self.search_paths@.map_values(|s: String| s@)
    }

    /// The prefix of the environment variables read, if any.
    pub closed spec fn prefix(&self) -> Option<Seq<char>> {
        match self.env_prefix {
            Some(p) => Some(p@),
            None => None,
        }
    }

    /// Whether a missing configuration file is acceptable.
    pub closed spec fn allows_missing(&self) -> bool {
        self.allow_missing
    }

    /// The prefix of the environment variables read, if any.
    pub fn env_prefix(&self) -> (r: Option<String>)
        ensures
            match r {
                Some(p) => self.prefix() == Some(p@),
                None => self.prefix() is None,
            },
    {
        match &self.env_prefix {
            Some(p) => Some(p.clone()),
            None => None,
        }
    }

    /// No search paths of its own, the prefix "VEX", missing files refused.
    pub fn new() -> (r: ConfigLoader)
        ensures
            r.paths() == Seq::<Seq<char>>::empty(),
            r.prefix() == Some("VEX"@),
            !r.allows_missing(),
    {
        let r = ConfigLoader {
            search_paths: Vec::new(),
            env_prefix: Some(text("VEX")),
            allow_missing: false,
        };
        assert(r.paths() =~= Seq::<Seq<char>>::empty());
        r
    }

    /// Searches the given paths, in their order.
    pub fn with_search_paths(self, paths: Vec<String>) -> (r: ConfigLoader)
        ensures
            r.paths() == paths@.map_values(|s: String| s@),
            r.prefix() == self.prefix(),
            r.allows_missing() == self.allows_missing(),
    {
        ConfigLoader { search_paths: paths, ..self }
    }

    /// Reads the environment variables with the given prefix.
    pub fn with_env_prefix(self, prefix: &str) -> (r: ConfigLoader)
        ensures
            r.paths() == self.paths(),
            r.prefix() == Some(prefix@),
            r.allows_missing() == self.allows_missing(),
    {
        ConfigLoader { env_prefix: Some(text(prefix)), ..self }
    }

    /// Reads no environment variables.
    pub fn without_env_prefix(self) -> (r: ConfigLoader)
        ensures
            r.paths() == self.paths(),
            r.prefix() is None,
            r.allows_missing() == self.allows_missing(),
    {
        ConfigLoader { env_prefix: None, ..self }
    }

    /// Accepts that no configuration file exists, using the defaults then.
    pub fn allow_missing_files(self) -> (r: ConfigLoader)
        ensures
            r.paths() == self.paths(),
            r.prefix() == self.prefix(),
            r.allows_missing(),
    {
        ConfigLoader { allow_missing: true, ..self }
    }

    /// The format of a file by its extension: toml, yaml or yml, json, ini.
    pub fn detect_file_format(&self, path: &str) -> (r: Result<FileFormat, ConfigError>)
        ensures
            format_result(r, path@),
    {
        match path_extension(path) {
            Some(ext) => {
                let e = ext.as_str();
                if ext == text("toml") {
                    Ok(FileFormat::Toml)
                } else if ext == text("yaml") || ext == text("yml") {
                    Ok(FileFormat::Yaml)
                } else if ext == text("json") {
                    Ok(FileFormat::Json)
                } else if ext == text("ini") {
                    Ok(FileFormat::Ini)
                } else {
                    Err(ConfigError::ParseError(text("Unsupported file format: ").concat(e)))
                }
            },
            None => Err(ConfigError::parse("No file extension found")),
        }
    }

    /// The environment to load for: the one asked for, else the one the process environment
    /// selects; with neither, an environment error.
    pub fn resolve_environment(explicit: Option<Environment>, detected: Option<Environment>) -> (r:
        Result<Environment, ConfigError>)
        ensures
            match (explicit, detected) {
                (Some(e), _) => r == Ok::<Environment, ConfigError>(e),
                (None, Some(e)) => r == Ok::<Environment, ConfigError>(e),
                (None, None) => r is Err && r->Err_0 is EnvironmentError
                    && r->Err_0->EnvironmentError_0@ == no_environment_message(),
            },
    {
        match explicit {
            Some(e) => Ok(e),
            None => match detected {
                Some(e) => Ok(e),
                None => Err(
                    ConfigError::EnvironmentError(
                        text(
                            "No environment selected. Set one of VEX_ENV, ENVIRONMENT, ENV, or NODE_ENV to development, test, or production",
                        ),
                    ),
                ),
            },
        }
    }

    /// The paths to search: the loader's own, or the environment's defaults when it has none.
    pub fn search_paths_for(&self, env: &Environment) -> (r: Vec<String>)
        ensures
            self.paths().len() == 0 ==> r@.map_values(|s: String| s@) == env.spec_config_paths(),
            self.paths().len() > 0 ==> r@.map_values(|s: String| s@) == self.paths(),
    {
        if self.search_paths.len() == 0 {
            let r = env.default_config_paths();
            assert(r@.map_values(|s: String| s@) =~= env.spec_config_paths());
            r
        } else {
            let mut r: Vec<String> = Vec::new();
            let mut i: usize = 0;
            while i < self.search_paths.len()
                invariant
                    i <= self.search_paths@.len(),
                    r@.len() == i,
                    forall|k: int| 0 <= k < i ==> (#[trigger] r@[k])@ == self.search_paths@[k]@,
                decreases self.search_paths@.len() - i,
            {
                r.push(self.search_paths[i].clone());
                i = i + 1;
            }
            assert(r@.map_values(|s: String| s@) =~= self.paths());
            r
        }
    }

    /// The formats of the files found, in their order; the first file whose format is not
    /// known stops the load with its parse error.
    pub fn file_formats(&self, found: &Vec<String>) -> (r: Result<Vec<FileFormat>, ConfigError>)
        ensures
            match r {
                Ok(formats) => formats@.len() == found@.len() && forall|k: int|
                    0 <= k < found@.len() ==> format_of_extension(
                        path_extension_of(#[trigger] found@[k]@),
                    ) == Ok::<FileFormat, Seq<char>>(formats@[k]),
                Err(e) => exists|k: int|
                    0 <= k < found@.len() && (forall|j: int|
                        0 <= j < k ==> format_of_extension(path_extension_of(#[trigger] found@[j]@)) is Ok)
                        && format_of_extension(path_extension_of(found@[k]@)) is Err
                        && is_parse_error(e, format_of_extension(path_extension_of(found@[k]@))->Err_0),
            },
    {
        let mut formats: Vec<FileFormat> = Vec::new();
        let mut i: usize = 0;
        while i < found.len()
            invariant
                i <= found@.len(),
                formats@.len() == i,
                forall|k: int|
                    0 <= k < i ==> format_of_extension(path_extension_of(#[trigger] found@[k]@))
                        == Ok::<FileFormat, Seq<char>>(formats@[k]),
            decreases found@.len() - i,
        {
            match self.detect_file_format(found[i].as_str()) {
                Ok(f) => {
                    formats.push(f);
                },
                Err(e) => {
                    assert(forall|j: int| 0 <= j < i ==> format_of_extension(path_extension_of(#[trigger] found@[j]@)) is Ok);
                    return Err(e);
                },
            }
            i = i + 1;
        }
        Ok(formats)
    }

    /// What happens when none of the search paths holds a file: the environment's defaults if
    /// missing files are accepted, else a not-found error that lists the paths.
    pub fn no_files_outcome(&self, env: Environment, searched: &Vec<String>) -> (r: Result<
        VexConfig,
        ConfigError,
    >)
        ensures
            self.allows_missing() ==> r is Ok && vex_defaults(r->Ok_0, env),
            !self.allows_missing() ==> r is Err && r->Err_0 is NotFound && r->Err_0->NotFound_0@
                == no_files_message(searched@),
    {
        if self.allow_missing {
            Ok(VexConfig::new(env))
        } else {
            Err(
                ConfigError::NotFound(
                    text("No configuration files found in search paths: ").concat(
                        debug_list(searched).as_str(),
                    ),
                ),
            )
        }
    }

    /// The prefixes of the environment variables that override settings, if the loader reads
    /// any: the general one, and the one of the environment (general prefix, "_", and the
    /// environment's prefix).
    pub fn env_var_prefixes(&self, env: &Environment) -> (r: Option<(String, String)>)
        ensures
            match self.prefix() {
                None => r is None,
                Some(p) => r is Some && r->Some_0.0@ == p && r->Some_0.1@ == p + "_"@
                    + env.spec_env_prefix(),
            },
    {
        match &self.env_prefix {
            None => None,
            Some(p) => {
                let specific = p.clone().concat("_").concat(env.env_prefix().as_str());
                Some((p.clone(), specific))
            },
        }
    }

    /// Finishes a load from defaults: the overrides read from the environment variables, if
    /// they could be read, are merged in, and the result is checked.
    pub fn finish_defaults(
        defaults: VexConfig,
        overrides: Option<VexConfig>,
        sampling_in_range: bool,
    ) -> (r: Result<VexConfig, ConfigError>)
        ensures
            match overrides {
                None => vex_result(outcome(r), defaults, sampling_in_range) && (r is Ok
                    ==> r->Ok_0 == defaults),
                Some(o) => if o.environment != defaults.environment {
                    r is Err && r->Err_0 is ValidationError && r->Err_0->ValidationError_0@
                        == different_environments_message()
                } else {
                    exists|c: VexConfig| #[trigger]
                        vex_merged(defaults, o, c) && vex_result(outcome(r), c, sampling_in_range)
                            && (r is Ok ==> r->Ok_0 == c)
                },
            },
    {
        let mut config = defaults;
        match overrides {
            Some(o) => {
                match config.merge_with(&o) {
                    Ok(()) => {},
                    Err(e) => {
                        return Err(e);
                    },
                }
            },
            None => {},
        }
        match config.validate_with_sampling(sampling_in_range) {
            Ok(()) => Ok(config),
            Err(e) => Err(e),
        }
    }

    /// Finishes a load from files: the configuration is put in the environment it was loaded
    /// for and checked.
    pub fn finish_loaded(loaded: VexConfig, env: Environment, sampling_in_range: bool) -> (r:
        Result<VexConfig, ConfigError>)
        ensures
            vex_result(outcome(r), VexConfig { environment: env, ..loaded }, sampling_in_range),
            r is Ok ==> r->Ok_0 == (VexConfig { environment: env, ..loaded }),
    {
        let mut config = loaded;
        config.environment = env;
        match config.validate_with_sampling(sampling_in_range) {
            Ok(()) => Ok(config),
            Err(e) => Err(e),
        }
    }

    /// The not-found error for a configuration file that does not exist.
    pub fn missing_file(path: &str) -> (r: ConfigError)
        ensures
            r is NotFound && r->NotFound_0@ == "Config file not found: "@ + path@,
    {
        ConfigError::NotFound(text("Config file not found: ").concat(path))
    }

    /// What an automatic load gives: the loaded configuration, or, when loading failed in
    /// development or test, the defaults of the environment; in production the error stays.
    pub fn fallback(env: Environment, loaded: Result<VexConfig, ConfigError>) -> (r: Result<
        VexConfig,
        ConfigError,
    >)
        ensures
            loaded is Ok ==> r == loaded,
            loaded is Err && env != Environment::Production ==> r is Ok && vex_defaults(
                r->Ok_0,
                env,
            ),
            loaded is Err && env == Environment::Production ==> r == loaded,
    {
        match loaded {
            Ok(c) => Ok(c),
            Err(e) => {
                if env.is_development() || env.is_test() {
                    Ok(VexConfig::new(env))
                } else {
                    Err(e)
                }
            },
        }
    }
}

impl Default for ConfigLoader {
    fn default() -> (r: ConfigLoader)
        ensures
            r.paths() == Seq::<Seq<char>>::empty(),
            r.prefix() == Some("VEX"@),
            !r.allows_missing(),
    {
        Self::new()
    }
}

} // verus!
