use academic_workflow::config::{Config, ConfigError};

#[test]
fn test_default_config() {
    let config = Config::default();
    assert_eq!(config.project_name, "Academic Workflow Suite");
    assert_eq!(config.backend_url, "http://localhost:8000");
    assert_eq!(config.auto_sync, false);
}

#[test]
fn test_validate() {
    let config = Config::default();
    assert!(config.validate().is_ok());

    let mut invalid = Config::default();
    invalid.project_name = String::new();
    assert!(invalid.validate().is_err());

    let mut invalid = Config::default();
    invalid.backend_url = "invalid-url".to_string();
    assert!(invalid.validate().is_err());
}

#[test]
fn config_rules_in_order() {
    let mut config = Config::default();
    config.project_name = String::new();
    config.backend_url = String::new();
    assert_eq!(config.validate(), Err(ConfigError::EmptyProjectName));

    let mut config = Config::default();
    config.backend_url = String::new();
    config.default_concurrency = 0;
    assert_eq!(config.validate(), Err(ConfigError::EmptyBackendUrl));

    let mut config = Config::default();
    config.backend_url = "ftp://host".to_string();
    assert_eq!(config.validate(), Err(ConfigError::InvalidBackendUrl));

    let mut config = Config::default();
    config.backend_url = "https://host".to_string();
    config.moodle_url = Some("moodle.example".to_string());
    assert_eq!(config.validate(), Err(ConfigError::InvalidMoodleUrl));

    let mut config = Config::default();
    config.moodle_url = Some("http://moodle.example".to_string());
    config.default_concurrency = 0;
    assert_eq!(config.validate(), Err(ConfigError::ZeroConcurrency));

    assert_eq!(Config::default().default_concurrency, 5);
    assert_eq!(Config::default().timeout_seconds, 300);
    assert_eq!(
        ConfigError::InvalidMoodleUrl.to_string(),
        "Moodle URL must start with http:// or https://"
    );
}
