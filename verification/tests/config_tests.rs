use base64::Engine;
use vpnet::client_config::{self, ConfigError};
use vpnet::server_config;

#[test]
fn default_client_config_is_valid() {
    let c = client_config::default_config().unwrap();
    assert!(client_config::validate_config(&c).is_ok());
    assert!(c.client.id.starts_with("client_"));
    assert!(c.client.name.starts_with("Client-"));
    assert_eq!(c.client.port, 51820);
    assert_eq!(c.server.address, "127.0.0.1:51820");
    assert_eq!(c.virtual_device.name, "vpnet0");
    assert_eq!(c.virtual_device.ip, "10.0.0.2");
    assert_eq!(c.virtual_device.mtu, 1420);
    assert_eq!(c.auth.token_file, "vpnet-token.json");
    assert_eq!(c.monitor.log_level, "info");
}

#[test]
fn default_client_ids_are_distinct() {
    let a = client_config::default_config().unwrap();
    let b = client_config::default_config().unwrap();
    assert_ne!(a.client.id, b.client.id);
}

#[test]
fn client_validation_reports_the_first_broken_rule() {
    let mut c = client_config::default_config().unwrap();
    c.client.id = String::new();
    assert_eq!(
        client_config::validate_config(&c),
        Err(ConfigError::Missing("client.id".to_string()))
    );
    let mut c = client_config::default_config().unwrap();
    c.client.port = 0;
    assert_eq!(
        client_config::validate_config(&c),
        Err(ConfigError::Invalid("client.port must be greater than 0".to_string()))
    );
    let mut c = client_config::default_config().unwrap();
    c.virtual_device.gateway = String::new();
    assert_eq!(
        client_config::validate_config(&c),
        Err(ConfigError::Missing("virtual_device.gateway".to_string()))
    );
    let mut c = client_config::default_config().unwrap();
    c.monitor.log_level = String::new();
    assert_eq!(
        client_config::validate_config(&c),
        Err(ConfigError::Missing("monitor.log_level".to_string()))
    );
    // two broken rules: the earlier one wins
    let mut c = client_config::default_config().unwrap();
    c.client.name = String::new();
    c.server.address = String::new();
    assert_eq!(
        client_config::validate_config(&c),
        Err(ConfigError::Missing("client.name".to_string()))
    );
}

#[test]
fn default_server_config_is_valid() {
    let c = server_config::default_config().unwrap();
    assert!(server_config::validate_config(&c).is_ok());
    assert_eq!(c.server.bind, "0.0.0.0");
    assert_eq!(c.server.port, 51820);
    assert!(c.node.id.starts_with("node_"));
    assert_eq!(c.node.name, "VPNet Server");
    assert_eq!(c.api.port, 51821);
    assert_eq!(c.web.port, 51822);
    assert_eq!(c.api.allowed_origins, vec!["*".to_string()]);
    assert!(!c.auth.secret_key.is_empty());
    assert_eq!(c.auth.token_expiry, 86400);
}

#[test]
fn server_validation_reports_the_first_broken_rule() {
    let mut c = server_config::default_config().unwrap();
    c.server.bind = String::new();
    assert_eq!(
        server_config::validate_config(&c),
        Err(ConfigError::Missing("server.bind".to_string()))
    );
    let mut c = server_config::default_config().unwrap();
    c.api.port = 0;
    assert_eq!(
        server_config::validate_config(&c),
        Err(ConfigError::Invalid("api.port must be greater than 0".to_string()))
    );
    let mut c = server_config::default_config().unwrap();
    c.auth.secret_key = String::new();
    assert_eq!(
        server_config::validate_config(&c),
        Err(ConfigError::Missing("auth.secret_key".to_string()))
    );
}

#[test]
fn server_secret_key_is_standard_base64() {
    let c = server_config::default_config().unwrap();
    let raw = base64::engine::general_purpose::STANDARD
        .decode(&c.auth.secret_key)
        .expect("secret key must be canonical base64");
    assert_eq!(raw.len(), 32);
}

#[test]
fn hex_rendering_matches_formatting() {
    assert_eq!(vpnet::hex::hex_string(0), "0");
    assert_eq!(vpnet::hex::hex_string(0xdeadbeef), format!("{:x}", 0xdeadbeefu64));
    assert_eq!(vpnet::hex::hex_string(u64::MAX), format!("{:x}", u64::MAX));
    assert_eq!(vpnet::hex::hex_string(16), "10");
}
