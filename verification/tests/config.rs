use mrcli::config::{checked_config, default_connection_index, validate_config, ConfigError};
use mrcli::model::{AppConfig, ConnectionProfile};

fn profile(name: &str) -> ConnectionProfile {
    ConnectionProfile {
        name: name.to_string(),
        kind: "mysql".to_string(),
        host: "127.0.0.1".to_string(),
        port: 3306,
        username: "root".to_string(),
        password: "root".to_string(),
        database: "app_db".to_string(),
    }
}

fn config(default: Option<&str>, connections: Vec<ConnectionProfile>) -> AppConfig {
    AppConfig { default_connection: default.map(|d| d.to_string()), connections }
}

fn message(c: &AppConfig) -> String {
    match validate_config(c) {
        Ok(()) => String::from("ok"),
        Err(e) => e.message(),
    }
}

#[test]
fn accepts_a_valid_config() {
    let c = config(Some("local_mysql"), vec![profile("local_mysql"), profile("other")]);
    assert!(validate_config(&c).is_ok());
}

#[test]
fn rejects_an_empty_connection_list() {
    let c = config(None, vec![]);
    assert!(matches!(validate_config(&c), Err(ConfigError::NoConnections)));
    assert_eq!(message(&c), "config must contain at least one connection");
}

#[test]
fn rejects_a_blank_name() {
    let c = config(None, vec![profile("  \t")]);
    assert!(matches!(validate_config(&c), Err(ConfigError::EmptyName)));
    assert_eq!(message(&c), "connection name cannot be empty");
}

#[test]
fn rejects_a_duplicate_name() {
    let c = config(None, vec![profile("a"), profile("b"), profile("a")]);
    assert_eq!(message(&c), "duplicate connection name: a");
}

#[test]
fn rejects_another_kind() {
    let mut p = profile("pg");
    p.kind = "postgres".to_string();
    let c = config(None, vec![p]);
    assert_eq!(message(&c), "unsupported connection kind: postgres");
    let mut p = profile("upper");
    p.kind = "MySQL".to_string();
    assert!(matches!(validate_config(&config(None, vec![p])), Err(ConfigError::UnsupportedKind(_))));
}

#[test]
fn rejects_blank_host_username_database() {
    let mut p = profile("x");
    p.host = " ".to_string();
    assert_eq!(message(&config(None, vec![p])), "connection host cannot be empty");
    let mut p = profile("x");
    p.username = String::new();
    assert_eq!(message(&config(None, vec![p])), "connection username cannot be empty");
    let mut p = profile("x");
    p.database = "\n".to_string();
    assert_eq!(message(&config(None, vec![p])), "connection database cannot be empty");
}

#[test]
fn rejects_port_zero() {
    let mut p = profile("x");
    p.port = 0;
    assert!(matches!(validate_config(&config(None, vec![p])), Err(ConfigError::ZeroPort)));
}

#[test]
fn reports_the_first_broken_rule() {
    let mut bad_port = profile("a");
    bad_port.port = 0;
    let mut bad_host = profile("b");
    bad_host.host = String::new();
    let c = config(None, vec![bad_port, bad_host]);
    assert!(matches!(validate_config(&c), Err(ConfigError::ZeroPort)));
}

#[test]
fn default_connection_is_found_by_name() {
    let c = config(Some("second"), vec![profile("first"), profile("second")]);
    assert_eq!(default_connection_index(&c), 1);
}

#[test]
fn default_connection_falls_back_to_the_first() {
    let c = config(Some("missing"), vec![profile("first"), profile("second")]);
    assert_eq!(default_connection_index(&c), 0);
    let c = config(None, vec![profile("first"), profile("second")]);
    assert_eq!(default_connection_index(&c), 0);
}

#[test]
fn checked_config_passes_valid_and_reports_invalid() {
    let c = config(None, vec![profile("a")]);
    assert_eq!(checked_config(c).map(|c| c.connections.len()), Ok(1));
    let mut p = profile("a");
    p.port = 0;
    let c = config(None, vec![p]);
    assert_eq!(checked_config(c).map(|c| c.connections.len()), Err("connection port must be greater than zero".to_string()));
}
