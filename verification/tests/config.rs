use status_monitor::config::{Config, ConfigError};

fn text(s: &str) -> Option<String> {
    Some(s.to_string())
}

#[test]
fn absent_settings_take_their_defaults() {
    let config = Config::from_values(None, text("tok"), None, None, None, None).unwrap();
    assert_eq!(
        config,
        Config {
            server_url: "http://localhost:8080".to_string(),
            token: "tok".to_string(),
            hostname: "unknown".to_string(),
            docker_path: "/var/lib/docker".to_string(),
            github_repo: None,
        }
    );
    assert_eq!(config.clone(), config);
}

#[test]
fn given_settings_are_kept() {
    let config = Config::from_values(
        text("https://collector"),
        text("tok"),
        text("named"),
        text("system"),
        text("/data/docker"),
        text("acme/monitor"),
    )
    .unwrap();
    assert_eq!(config.server_url, "https://collector");
    assert_eq!(config.hostname, "named");
    assert_eq!(config.docker_path, "/data/docker");
    assert_eq!(config.github_repo, text("acme/monitor"));
}

#[test]
fn the_system_name_stands_in_for_a_missing_host_name() {
    let config = Config::from_values(None, text("tok"), None, text("system"), None, None).unwrap();
    assert_eq!(config.hostname, "system");
}

#[test]
fn the_credential_is_required() {
    let result = Config::from_values(text("https://collector"), None, text("h"), None, None, None);
    assert_eq!(result, Err(ConfigError::MissingToken));
    assert_eq!(
        ConfigError::MissingToken.message(),
        "CLIENT_TOKEN environment variable is required"
    );
}
