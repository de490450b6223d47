use vex_core::config::environment::Environment;

#[test]
fn test_environment_from_str() {
    assert_eq!(
        "development".parse::<Environment>().unwrap(),
        Environment::Development
    );
    assert_eq!(
        "dev".parse::<Environment>().unwrap(),
        Environment::Development
    );
    assert_eq!("test".parse::<Environment>().unwrap(), Environment::Test);
    assert_eq!("testing".parse::<Environment>().unwrap(), Environment::Test);
    assert_eq!(
        "production".parse::<Environment>().unwrap(),
        Environment::Production
    );
    assert_eq!(
        "prod".parse::<Environment>().unwrap(),
        Environment::Production
    );

    assert!("invalid".parse::<Environment>().is_err());
}

#[test]
fn test_environment_display() {
    assert_eq!(Environment::Development.to_string(), "development");
    assert_eq!(Environment::Test.to_string(), "test");
    assert_eq!(Environment::Production.to_string(), "production");
}

#[test]
fn test_environment_checks() {
    assert!(Environment::Development.is_development());
    assert!(!Environment::Development.is_test());
    assert!(!Environment::Development.is_production());

    assert!(!Environment::Test.is_development());
    assert!(Environment::Test.is_test());
    assert!(!Environment::Test.is_production());

    assert!(!Environment::Production.is_development());
    assert!(!Environment::Production.is_test());
    assert!(Environment::Production.is_production());
}

#[test]
fn test_config_file_names() {
    assert_eq!(Environment::Development.config_file_name(), "config.dev");
    assert_eq!(Environment::Test.config_file_name(), "config.test");
    assert_eq!(Environment::Production.config_file_name(), "config.prod");
}

#[test]
fn environment_names_ignore_case() {
    assert_eq!("PRODUCTION".parse::<Environment>().unwrap(), Environment::Production);
    assert_eq!("Develop".parse::<Environment>().unwrap(), Environment::Development);
    assert_eq!("TeStInG".parse::<Environment>().unwrap(), Environment::Test);
}

#[test]
fn invalid_environment_message_names_the_value() {
    let err = Environment::parse_name("staging").unwrap_err();
    assert_eq!(
        err,
        "Invalid environment: 'staging'. Valid options: development, test, production"
    );
}

#[test]
fn detection_takes_the_first_variable_that_names_an_environment() {
    let values = vec![
        None,
        Some("bogus".to_string()),
        Some("test".to_string()),
        Some("production".to_string()),
    ];
    assert_eq!(Environment::detect_explicit_from(&values), Some(Environment::Test));
    assert_eq!(Environment::detect_from(&values), Environment::Test);

    let vex_env_first = vec![Some("prod".to_string()), Some("dev".to_string()), None, None];
    assert_eq!(Environment::detect_from(&vex_env_first), Environment::Production);
}

#[test]
fn detection_defaults_to_development() {
    let unset: Vec<Option<String>> = vec![None, None, None, None];
    assert_eq!(Environment::detect_explicit_from(&unset), None);
    assert_eq!(Environment::detect_from(&unset), Environment::Development);
    let unknown = vec![Some("x".to_string()), None, Some("y".to_string()), None];
    assert_eq!(Environment::detect_from(&unknown), Environment::Development);
}

#[test]
fn environment_prefixes_and_paths() {
    assert_eq!(Environment::Development.env_prefix(), "VEX_DEV");
    assert_eq!(Environment::Test.env_prefix(), "VEX_TEST");
    assert_eq!(Environment::Production.env_prefix(), "VEX_PROD");
    let paths = Environment::Test.default_config_paths();
    assert_eq!(paths.len(), 12);
    assert_eq!(paths[0], "./config.test.toml");
    assert_eq!(paths[3], "./config.test.json");
    assert_eq!(paths[5], "./config/config.test.yaml");
    assert_eq!(paths[10], "/etc/vex/config.test.yml");
    assert_eq!(Environment::default(), Environment::Development);
}

#[test]
fn names_round_trip() {
    for e in [Environment::Development, Environment::Test, Environment::Production] {
        assert_eq!(Environment::parse_name(&e.to_string()), Ok(e));
    }
}
