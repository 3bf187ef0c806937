use sn_node::config::{Config, ConfigError, LogLevel, DEFAULT_MAX_CAPACITY, DEFAULT_MIN_CAPACITY};
use sn_node::sap::PeerAddr;

#[test]
fn first_and_contacts_file_are_mutually_exclusive() {
    let mut c = Config::new_default();
    assert!(matches!(c.validate(), Err(ConfigError::Configuration(_))));
    c.first = true;
    assert!(c.validate().is_ok());
    c.network_contacts_file = Some("contacts".to_string());
    assert!(c.validate().is_err());
    c.first = false;
    assert!(c.validate().is_ok());
}

#[test]
fn merge_prefers_given_settings() {
    let mut base = Config::new_default();
    base.wallet_id = Some("abc".to_string());
    base.verbose = 2;
    base.update = true;
    base.logs_retained = 9;
    let mut over = Config::new_default();
    over.root_dir = Some("/data".to_string());
    over.logs_max_bytes = 100;
    over.first = true;
    base.merge(over);
    assert_eq!(base.wallet_id(), Some(&"abc".to_string()));
    assert_eq!(base.root_dir, Some("/data".to_string()));
    assert_eq!(base.verbose(), LogLevel::Info);
    assert!(base.update());
    assert!(base.is_first());
    assert_eq!(base.logs_retained(), 0);
    assert_eq!(base.logs_max_bytes(), 100);
}

#[test]
fn verbosity_maps_to_levels() {
    let mut c = Config::new_default();
    let levels = [LogLevel::Error, LogLevel::Warn, LogLevel::Info, LogLevel::Debug, LogLevel::Trace, LogLevel::Trace];
    for (v, l) in levels.iter().enumerate() {
        c.verbose = v as u8;
        assert_eq!(c.verbose(), *l);
    }
}

#[test]
fn local_addr_defaults_to_unspecified() {
    let mut c = Config::new_default();
    let a = c.local_addr();
    assert_eq!(a.port, 0);
    assert_eq!(a.ip, [0, 0, 0, 0, 0, 0, 0, 0, 0, 0, 0xff, 0xff, 0, 0, 0, 0]);
    c.local_addr = Some(PeerAddr { ip: [1; 16], port: 9 });
    assert_eq!(c.local_addr().port, 9);
    assert_eq!(c.min_capacity(), DEFAULT_MIN_CAPACITY);
    assert_eq!(c.max_capacity(), 2 * DEFAULT_MIN_CAPACITY);
    assert_eq!(DEFAULT_MAX_CAPACITY, 2 * 1024 * 1024 * 1024);
    c.set_log_dir("/logs".to_string());
    assert_eq!(c.log_dir(), &Some("/logs".to_string()));
}
