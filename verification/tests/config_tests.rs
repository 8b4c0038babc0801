use rqcheck::config::{Config, ConfigFile, ConfigSource, EnvSettings};
use rqcheck::error::RqCheckError;

fn field<T: serde::de::DeserializeOwned>(table: &toml::Table, key: &str) -> Option<T> {
    table.get(key).map(|v| v.clone().try_into::<T>().expect("a value of the field's type"))
}

/// The source that a configuration file with this text gives, for texts
/// whose values have the types of their fields.
fn contents(text: &str) -> ConfigSource {
    match toml::from_str::<toml::Table>(text) {
        Err(e) => ConfigSource::Invalid { path: "rqcheck.toml".to_string(), reason: e.to_string() },
        Ok(table) => ConfigSource::Settings(ConfigFile {
            batch_size: field(&table, "batch_size"),
            timeout_seconds: field(&table, "timeout_seconds"),
            max_retries: field(&table, "max_retries"),
            retry_delay_ms: field(&table, "retry_delay_ms"),
            pypi_base_url: field(&table, "pypi_base_url"),
            verbose: field(&table, "verbose"),
            max_versions_to_check: field(&table, "max_versions_to_check"),
        }),
    }
}

#[test]
fn test_default_config() {
    let config = Config::default();
    assert_eq!(config.batch_size, 10);
    assert_eq!(config.timeout_seconds, 30);
    assert_eq!(config.max_retries, 3);
    assert_eq!(config.retry_delay_ms, 1000);
    assert_eq!(config.pypi_base_url, "https://pypi.org/pypi");
    assert_eq!(config.verbose, false);
}

#[test]
fn test_load_valid_toml() {
    let text = r#"
batch_size = 20
timeout_seconds = 60
max_retries = 5
retry_delay_ms = 2000
pypi_base_url = "https://test.pypi.org"
verbose = true
"#;
    let config = Config::load(contents(text), &EnvSettings::unset()).unwrap();
    assert_eq!(config.batch_size, 20);
    assert_eq!(config.timeout_seconds, 60);
    assert_eq!(config.max_retries, 5);
    assert_eq!(config.retry_delay_ms, 2000);
    assert_eq!(config.pypi_base_url, "https://test.pypi.org");
    assert_eq!(config.verbose, true);
}

#[test]
fn test_load_invalid_toml() {
    let result = Config::load(contents("invalid toml content {\n"), &EnvSettings::unset());
    assert!(result.is_err());
    assert!(matches!(result.unwrap_err(), RqCheckError::ConfigError(_)));
}

#[test]
fn test_missing_config_file() {
    // The defaults apply when the file does not exist.
    let source = ConfigSource::Missing { path: "/nonexistent/path/config.toml".to_string() };
    let config = Config::load(source, &EnvSettings::unset()).unwrap();
    assert_eq!(config.batch_size, 10);
}

#[test]
fn test_env_override() {
    let env = EnvSettings {
        batch_size: Some("15".to_string()),
        timeout: Some("45".to_string()),
        max_retries: Some("7".to_string()),
        verbose: Some("true".to_string()),
        pypi_url: Some("https://custom.pypi.org".to_string()),
    };
    let config = Config::load(ConfigSource::NotGiven, &env).unwrap();
    assert_eq!(config.batch_size, 15);
    assert_eq!(config.timeout_seconds, 45);
    assert_eq!(config.max_retries, 7);
    assert_eq!(config.verbose, true);
    assert_eq!(config.pypi_base_url, "https://custom.pypi.org");
}

#[test]
fn test_cli_override() {
    let mut config = Config::default();
    config.apply_cli_overrides(Some(25), Some(90), None, true);

    assert_eq!(config.batch_size, 25);
    assert_eq!(config.timeout_seconds, 90);
    assert_eq!(config.verbose, true);
}

#[test]
fn test_validate_zero_batch_size() {
    let mut config = Config::default();
    config.batch_size = 0;
    let result = config.validate();
    assert!(result.is_err());
    assert!(matches!(result.unwrap_err(), RqCheckError::ConfigError(_)));
}

#[test]
fn test_validate_zero_timeout() {
    let mut config = Config::default();
    config.timeout_seconds = 0;
    let result = config.validate();
    assert!(result.is_err());
    assert!(matches!(result.unwrap_err(), RqCheckError::ConfigError(_)));
}

#[test]
fn test_override_precedence() {
    let config = Config::load(contents("batch_size = 20\n"), &EnvSettings::unset()).unwrap();
    assert_eq!(config.batch_size, 20); // File value

    let mut env = EnvSettings::unset();
    env.batch_size = Some("30".to_string());
    let mut config = Config::load(contents("batch_size = 20\n"), &env).unwrap();
    assert_eq!(config.batch_size, 30); // Env overrides file

    config.apply_cli_overrides(Some(40), None, None, false);
    assert_eq!(config.batch_size, 40); // CLI overrides env
}

#[test]
fn test_partial_toml() {
    let config = Config::load(contents("batch_size = 15\n"), &EnvSettings::unset()).unwrap();
    assert_eq!(config.batch_size, 15);
    assert_eq!(config.timeout_seconds, 30); // Default
    assert_eq!(config.max_retries, 3); // Default
}

// Further cases of loading.

#[test]
fn config_default_max_versions_is_ten() {
    let config = Config::load(ConfigSource::NotGiven, &EnvSettings::unset()).unwrap();
    assert_eq!(config.max_versions_to_check, 10);
    assert_eq!(config.pypi_base_url, "https://pypi.org/pypi");
}

#[test]
fn config_invalid_file_reports_deserialiser_message() {
    let source = ConfigSource::Invalid {
        path: "cfg.toml".to_string(),
        reason: "invalid type: string \"many\", expected usize".to_string(),
    };
    match Config::load(source, &EnvSettings::unset()) {
        Err(RqCheckError::ConfigError(m)) => assert_eq!(
            m,
            "Failed to parse config file 'cfg.toml': invalid type: string \"many\", expected usize"
        ),
        other => panic!("unexpected {:?}", other),
    }
}

#[test]
fn config_syntax_error_message_is_the_parser_s() {
    match Config::load(contents("invalid toml content {\n"), &EnvSettings::unset()) {
        Err(RqCheckError::ConfigError(m)) => {
            assert!(m.starts_with("Failed to parse config file 'rqcheck.toml': TOML parse error"))
        }
        other => panic!("unexpected {:?}", other),
    }
}

#[test]
fn config_unknown_keys_are_ignored() {
    let config = Config::load(contents("colour = \"blue\"\nbatch_size = 3\n"), &EnvSettings::unset()).unwrap();
    assert_eq!(config.batch_size, 3);
}

#[test]
fn config_unreadable_file_reports_reason() {
    let source = ConfigSource::Unreadable { path: "cfg.toml".to_string(), reason: "permission denied".to_string() };
    match Config::load(source, &EnvSettings::unset()) {
        Err(RqCheckError::ConfigError(m)) => {
            assert_eq!(m, "Failed to read config file 'cfg.toml': permission denied")
        }
        other => panic!("unexpected {:?}", other),
    }
}

#[test]
fn config_zero_batch_size_from_file_fails_validation() {
    match Config::load(contents("batch_size = 0\n"), &EnvSettings::unset()) {
        Err(RqCheckError::ConfigError(m)) => assert_eq!(m, "batch_size must be greater than 0"),
        other => panic!("unexpected {:?}", other),
    }
}

#[test]
fn config_zero_timeout_from_env_fails_validation() {
    let mut env = EnvSettings::unset();
    env.timeout = Some("0".to_string());
    match Config::load(ConfigSource::NotGiven, &env) {
        Err(RqCheckError::ConfigError(m)) => assert_eq!(m, "timeout_seconds must be greater than 0"),
        other => panic!("unexpected {:?}", other),
    }
}

#[test]
fn config_env_values_that_do_not_parse_are_ignored() {
    let env = EnvSettings {
        batch_size: Some("lots".to_string()),
        timeout: Some(" 12".to_string()),
        max_retries: Some("-1".to_string()),
        verbose: None,
        pypi_url: None,
    };
    let config = Config::load(ConfigSource::NotGiven, &env).unwrap();
    assert_eq!(config.batch_size, 10);
    assert_eq!(config.timeout_seconds, 30);
    assert_eq!(config.max_retries, 3);
    let mut env = EnvSettings::unset();
    env.batch_size = Some("+12".to_string());
    assert_eq!(Config::load(ConfigSource::NotGiven, &env).unwrap().batch_size, 12);
}

#[test]
fn config_env_verbose_values() {
    for (value, expected) in [("TRUE", true), ("True", true), ("1", true), ("yes", false), ("0", false), ("", false)] {
        let mut env = EnvSettings::unset();
        env.verbose = Some(value.to_string());
        let config = Config::load(ConfigSource::NotGiven, &env).unwrap();
        assert_eq!(config.verbose, expected, "RQCHECK_VERBOSE={:?}", value);
    }
    // The variable also switches logging off when the file switched it on.
    let mut env = EnvSettings::unset();
    env.verbose = Some("false".to_string());
    let config = Config::load(contents("verbose = true\n"), &env).unwrap();
    assert_eq!(config.verbose, false);
}

#[test]
fn config_cli_verbose_false_keeps_setting() {
    let mut config = Config::load(contents("verbose = true\n"), &EnvSettings::unset()).unwrap();
    config.apply_cli_overrides(None, None, Some(4), false);
    assert_eq!(config.verbose, true);
    assert_eq!(config.max_versions_to_check, 4);
    assert_eq!(config.batch_size, 10);
}

#[test]
fn readme_configuration_example() {
    let text = "batch_size = 15\ntimeout_seconds = 60\nmax_retries = 5\npypi_base_url = \"https://pypi.org/pypi\"\n";
    let config = Config::load(contents(text), &EnvSettings::unset()).unwrap();
    assert_eq!(config.batch_size, 15);
    assert_eq!(config.timeout_seconds, 60);
    assert_eq!(config.max_retries, 5);
    assert_eq!(config.retry_delay_ms, 1000);
    assert_eq!(config.pypi_base_url, "https://pypi.org/pypi");
}
