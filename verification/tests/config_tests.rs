use shadowghost::config::{ConfigError, ConfigManager};

#[test]
fn defaults_hold_the_documented_values() {
    let m = ConfigManager::new("cfg.toml".to_string());
    let c = m.get_config();
    assert_eq!(c.user_name, "user");
    assert_eq!(c.network.port, 8080);
    assert_eq!(c.network.max_peers, 50);
    assert_eq!(c.storage.data_path, "./data");
    assert_eq!(c.storage.backup_interval, 86400);
    assert_eq!(c.storage.max_backups, 7);
    assert!(c.security.encryption_enabled);
    assert!(!c.security.auto_accept_contacts);
    assert_eq!(c.version, "0.1.0");
    assert_eq!(m.get_config_path(), "cfg.toml");
}

#[test]
fn blank_user_name_is_refused() {
    let mut m = ConfigManager::new("c".to_string());
    match m.update_user_name("  \t ".to_string()) {
        Err(ConfigError::ValidationError(msg)) => assert_eq!(msg, "Name cannot be empty"),
        _ => panic!("expected a validation error"),
    }
    assert_eq!(m.get_config().user_name, "user");
    assert!(m.update_user_name(" Alice ".to_string()).is_ok());
    assert_eq!(m.get_config().user_name, " Alice ");
}

#[test]
fn low_port_is_refused() {
    let mut m = ConfigManager::new("c".to_string());
    match m.update_network_port(1023) {
        Err(ConfigError::ValidationError(msg)) => assert_eq!(msg, "Port must be >= 1024"),
        _ => panic!("expected a validation error"),
    }
    assert!(m.update_network_port(1024).is_ok());
    assert_eq!(m.get_config().network.port, 1024);
}

#[test]
fn blank_data_path_is_refused() {
    let mut m = ConfigManager::new("c".to_string());
    match m.update_data_path(String::new()) {
        Err(ConfigError::ValidationError(msg)) => assert_eq!(msg, "Path cannot be empty"),
        _ => panic!("expected a validation error"),
    }
    assert!(m.update_data_path("/var/sg".to_string()).is_ok());
    assert_eq!(m.get_config().storage.data_path, "/var/sg");
}

#[test]
fn blocking_twice_blocks_once_and_unblocking_removes_it() {
    let mut m = ConfigManager::new("c".to_string());
    m.add_blocked_ip("10.0.0.1".to_string()).unwrap();
    m.add_blocked_ip("10.0.0.2".to_string()).unwrap();
    m.add_blocked_ip("10.0.0.1".to_string()).unwrap();
    assert_eq!(m.get_config().security.blocked_ips, vec!["10.0.0.1".to_string(), "10.0.0.2".to_string()]);
    m.remove_blocked_ip("10.0.0.1").unwrap();
    assert_eq!(m.get_config().security.blocked_ips, vec!["10.0.0.2".to_string()]);
    m.remove_blocked_ip("10.0.0.9").unwrap();
    assert_eq!(m.get_config().security.blocked_ips.len(), 1);
}

#[test]
fn reset_restores_defaults_and_keeps_path() {
    let mut m = ConfigManager::new("keep.toml".to_string());
    m.update_network_port(5000).unwrap();
    m.add_blocked_ip("1.1.1.1".to_string()).unwrap();
    m.reset_to_defaults();
    assert_eq!(m.get_config().network.port, 8080);
    assert!(m.get_config().security.blocked_ips.is_empty());
    assert_eq!(m.get_config_path(), "keep.toml");
}
