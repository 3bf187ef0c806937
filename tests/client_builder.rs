use sn_node::client_builder::{
    ClientBuilder, ClientError, ClientKeypair, DbcOwner, DEFAULT_MAX_QUERY_CMD_BACKOFF_INTERVAL_MS,
    DEFAULT_QUERY_CMD_TIMEOUT_MS,
};
use sn_node::sap::PeerAddr;
use sn_node::section_tree::SectionTree;

fn fresh() -> (ClientKeypair, DbcOwner) {
    (ClientKeypair { public: [1; 32], secret: [2; 32] }, DbcOwner { secret_key: [3; 32] })
}

#[test]
fn defaults_fill_unset_settings() {
    let (kp, owner) = fresh();
    let s = ClientBuilder::new().build(kp, owner, Ok(SectionTree::new())).expect("contacts");
    assert_eq!(s.query_timeout, DEFAULT_QUERY_CMD_TIMEOUT_MS);
    assert_eq!(s.cmd_timeout, 90_000);
    assert_eq!(s.max_backoff_interval, DEFAULT_MAX_QUERY_CMD_BACKOFF_INTERVAL_MS);
    assert_eq!(s.max_backoff_interval, 3_000);
    assert_eq!(s.local_addr.port, 0);
    assert_eq!(s.keypair.public, [1; 32]);
    assert_eq!(s.dbc_owner.secret_key, [3; 32]);
}

#[test]
fn set_values_win_over_defaults() {
    let (kp, owner) = fresh();
    let s = ClientBuilder::new()
        .query_timeout(Some(5))
        .cmd_timeout(Some(6))
        .max_backoff_interval(Some(7))
        .local_addr(Some(PeerAddr { ip: [1; 16], port: 8 }))
        .keypair(Some(ClientKeypair { public: [9; 32], secret: [9; 32] }))
        .dbc_owner(Some(DbcOwner { secret_key: [8; 32] }))
        .network_contacts(Some(SectionTree::new()))
        .build(kp, owner, Err("unreadable".to_string()))
        .expect("own contacts");
    assert_eq!((s.query_timeout, s.cmd_timeout, s.max_backoff_interval, s.local_addr.port), (5, 6, 7, 8));
    assert_eq!(s.keypair.public, [9; 32]);
    assert_eq!(s.dbc_owner.secret_key, [8; 32]);
}

#[test]
fn missing_contacts_is_an_error() {
    let (kp, owner) = fresh();
    let r = ClientBuilder::new().build(kp, owner, Err("no home directory".to_string()));
    assert!(matches!(r, Err(ClientError::NetworkContacts(ref m)) if m == "no home directory"));
}

#[test]
fn environment_values_are_seconds() {
    let (kp, owner) = fresh();
    let s = ClientBuilder::new()
        .cmd_timeout(Some(6))
        .from_env_values(Some(2), None, Some(u64::MAX))
        .build(kp, owner, Ok(SectionTree::new()))
        .expect("contacts");
    assert_eq!(s.query_timeout, 2_000);
    assert_eq!(s.max_backoff_interval, 3_000);
    assert_eq!(s.cmd_timeout, 6);
}
