use vex_core::config::loader::{save_format, SaveFormat};
use vex_core::config::environment::Environment;
use vex_core::config::error::ConfigError;
use vex_core::config::loader::{ConfigLoader, FileFormat};

#[test]
fn test_detect_file_format() {
    let loader = ConfigLoader::new();

    assert!(matches!(
        loader.detect_file_format("config.toml").unwrap(),
        FileFormat::Toml
    ));
    assert!(matches!(
        loader.detect_file_format("config.yaml").unwrap(),
        FileFormat::Yaml
    ));
    assert!(matches!(
        loader.detect_file_format("config.yml").unwrap(),
        FileFormat::Yaml
    ));
    assert!(matches!(
        loader.detect_file_format("config.json").unwrap(),
        FileFormat::Json
    ));

    assert!(loader.detect_file_format("config.txt").is_err());
    assert!(loader.detect_file_format("config").is_err());
}

#[test]
fn test_unset_environment_is_fatal() {
    let error = ConfigLoader::resolve_environment(None, None).unwrap_err();

    let message = match error {
        ConfigError::EnvironmentError(m) => m,
        other => panic!("unexpected error {other:?}"),
    };
    assert!(message.contains("VEX_ENV"));
    assert!(message.contains("ENVIRONMENT"));
    assert!(message.contains("ENV"));
    assert!(message.contains("NODE_ENV"));
    assert!(message.contains("development, test, or production"));
}

/// Loads as the automatic load does when none of the search paths holds a file.
fn load_with_missing_files(loader: &ConfigLoader, env: Environment) -> Result<vex_core::config::vex::VexConfig, ConfigError> {
    let searched = loader.search_paths_for(&env);
    let outcome = match loader.no_files_outcome(env, &searched) {
        Ok(defaults) => ConfigLoader::finish_defaults(defaults, None, true),
        Err(e) => Err(e),
    };
    ConfigLoader::fallback(env, outcome)
}

#[test]
fn test_explicit_test_environment_allows_missing_file_defaults() {
    let loader = ConfigLoader::new().with_search_paths(vec!["/missing/config.test.yaml".to_string()]);
    let config = load_with_missing_files(&loader, Environment::Test).unwrap();

    assert_eq!(config.environment, Environment::Test);
}

#[test]
fn test_explicit_development_environment_allows_missing_file_defaults() {
    let loader = ConfigLoader::new().with_search_paths(vec!["/missing/config.dev.yaml".to_string()]);
    let config = load_with_missing_files(&loader, Environment::Development).unwrap();

    assert_eq!(config.environment, Environment::Development);
}

#[test]
fn test_explicit_production_environment_rejects_missing_files() {
    let path = "/missing/config.prod.yaml";
    let loader = ConfigLoader::new().with_search_paths(vec![path.to_string()]);
    let error = match load_with_missing_files(&loader, Environment::Production) {
        Err(e) => e,
        Ok(_) => panic!("a production load without files must fail"),
    };

    let message = match error {
        ConfigError::NotFound(m) => m,
        other => panic!("unexpected error {other:?}"),
    };
    assert!(message.contains(path));
    assert!(message.contains("No configuration files found"));
}

#[test]
fn unsupported_and_missing_extensions_are_parse_errors() {
    let loader = ConfigLoader::new();
    match loader.detect_file_format("settings.txt") {
        Err(ConfigError::ParseError(m)) => assert_eq!(m, "Unsupported file format: txt"),
        other => panic!("unexpected {other:?}"),
    }
    match loader.detect_file_format("/etc/vex/config") {
        Err(ConfigError::ParseError(m)) => assert_eq!(m, "No file extension found"),
        other => panic!("unexpected {other:?}"),
    }
    assert_eq!(loader.detect_file_format("/a.b/c.ini").unwrap(), FileFormat::Ini);
    assert_eq!(loader.detect_file_format("dir.d/.hidden.json").unwrap(), FileFormat::Json);
}

#[test]
fn file_formats_stop_at_the_first_unknown_extension() {
    let loader = ConfigLoader::new();
    let found = vec!["a.toml".to_string(), "b.yml".to_string()];
    assert_eq!(loader.file_formats(&found).unwrap(), vec![FileFormat::Toml, FileFormat::Yaml]);
    let found = vec!["a.toml".to_string(), "b.cfg".to_string(), "c".to_string()];
    match loader.file_formats(&found) {
        Err(ConfigError::ParseError(m)) => assert_eq!(m, "Unsupported file format: cfg"),
        other => panic!("unexpected {other:?}"),
    }
}

#[test]
fn environment_resolution_prefers_the_explicit_choice() {
    assert_eq!(
        ConfigLoader::resolve_environment(Some(Environment::Test), Some(Environment::Production)).unwrap(),
        Environment::Test
    );
    assert_eq!(
        ConfigLoader::resolve_environment(None, Some(Environment::Production)).unwrap(),
        Environment::Production
    );
}

#[test]
fn search_paths_default_to_the_environment() {
    let loader = ConfigLoader::new();
    let paths = loader.search_paths_for(&Environment::Production);
    assert_eq!(paths, Environment::Production.default_config_paths());
    let own = ConfigLoader::new().with_search_paths(vec!["x.toml".to_string()]);
    assert_eq!(own.search_paths_for(&Environment::Production), vec!["x.toml".to_string()]);
}

#[test]
fn missing_files_are_listed_in_the_error() {
    let loader = ConfigLoader::new();
    let searched = vec!["/a/config.toml".to_string(), "b \"q\".yaml".to_string()];
    match loader.no_files_outcome(Environment::Development, &searched) {
        Err(ConfigError::NotFound(m)) => assert_eq!(
            m,
            "No configuration files found in search paths: [\"/a/config.toml\", \"b \\\"q\\\".yaml\"]"
        ),
        other => panic!("unexpected {:?}", other.map(|_| ())),
    }
    let allowing = ConfigLoader::new().allow_missing_files();
    let config = allowing.no_files_outcome(Environment::Production, &searched).unwrap();
    assert_eq!(config.environment, Environment::Production);
    assert_eq!(config.kafka_broker, "localhost:9092");
}

#[test]
fn environment_variable_prefixes() {
    let loader = ConfigLoader::new();
    let (general, specific) = loader.env_var_prefixes(&Environment::Test).unwrap();
    assert_eq!(general, "VEX");
    assert_eq!(specific, "VEX_VEX_TEST");
    let custom = ConfigLoader::new().with_env_prefix("TEST");
    let (general, specific) = custom.env_var_prefixes(&Environment::Development).unwrap();
    assert_eq!(general, "TEST");
    assert_eq!(specific, "TEST_VEX_DEV");
    assert!(ConfigLoader::new().without_env_prefix().env_var_prefixes(&Environment::Test).is_none());
}

#[test]
fn missing_file_error_names_the_path() {
    match ConfigLoader::missing_file("nonexistent.toml") {
        ConfigError::NotFound(m) => assert_eq!(m, "Config file not found: nonexistent.toml"),
        other => panic!("unexpected {other:?}"),
    }
}

#[test]
fn failed_production_load_keeps_its_error() {
    let err = ConfigLoader::fallback(Environment::Production, Err(ConfigError::io("disk")));
    assert!(matches!(err, Err(ConfigError::IoError(_))));
    let ok = ConfigLoader::fallback(Environment::Test, Err(ConfigError::io("disk"))).unwrap();
    assert_eq!(ok.environment, Environment::Test);
}

#[test]
fn save_format_follows_the_extension() {
    assert_eq!(save_format("out/config.toml").unwrap(), SaveFormat::Toml);
    assert_eq!(save_format("config.json").unwrap(), SaveFormat::Json);
    assert_eq!(save_format("config.yml").unwrap(), SaveFormat::Yaml);
    assert_eq!(save_format("config.yaml").unwrap(), SaveFormat::Yaml);
    for bad in ["config.ini", "config"] {
        match save_format(bad) {
            Err(ConfigError::ValidationError(m)) => {
                assert_eq!(m, "Unsupported file format. Use .toml, .json, .yaml, or .yml")
            }
            other => panic!("unexpected {other:?}"),
        }
    }
}

#[test]
fn loader_prefix_getter() {
    assert_eq!(ConfigLoader::new().env_prefix(), Some("VEX".to_string()));
    assert_eq!(ConfigLoader::default().with_env_prefix("APP").env_prefix(), Some("APP".to_string()));
    assert_eq!(ConfigLoader::new().without_env_prefix().env_prefix(), None);
}

#[test]
fn config_error_texts() {
    assert_eq!(ConfigError::io("x").to_string(), "IO error: x");
    assert_eq!(ConfigError::parse("y").to_string(), "Parse error: y");
    assert_eq!(ConfigError::validation("z").to_string(), "Validation error: z");
    assert_eq!(ConfigError::not_found("w").to_string(), "Configuration not found: w");
    assert_eq!(ConfigError::network("n").to_string(), "Network configuration error: n");
    assert_eq!(ConfigError::logging("l").to_string(), "Logging configuration error: l");
    assert_eq!(
        ConfigError::EnvironmentError("e".to_string()).to_string(),
        "Environment variable error: e"
    );
}
