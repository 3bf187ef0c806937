//! The settings a client is built with, and their defaults.
use vstd::prelude::*;
use crate::sap::PeerAddr;
use crate::section_tree::SectionTree;

verus! {

/// Default time before queries and commands time out: 90 s.
pub const DEFAULT_QUERY_CMD_TIMEOUT_MS: u64 = 90_000;

/// Default longest wait between two attempts of an operation: 3 s.
pub const DEFAULT_MAX_QUERY_CMD_BACKOFF_INTERVAL_MS: u64 = 3_000;

/// A client's signing keypair (Ed25519), as bytes.
#[derive(Clone, Copy, Debug)]
pub struct ClientKeypair {
    pub public: [u8; 32],
    pub secret: [u8; 32],
}

/// The owner of a client's digital bearer certificates: a BLS secret key, as bytes.
#[derive(Clone, Copy, Debug)]
pub struct DbcOwner {
    pub secret_key: [u8; 32],
}

/// Why a client could not be set up.
#[derive(Clone, Debug)]
pub enum ClientError {
    /// No network contacts were given and the default ones could not be read.
    NetworkContacts(String),
}

/// Settings for a client; durations are in milliseconds.
#[derive(Debug)]
pub struct ClientBuilder {
    pub keypair: Option<ClientKeypair>,
    pub dbc_owner: Option<DbcOwner>,
    pub local_addr: Option<PeerAddr>,
    pub query_timeout: Option<u64>,
    pub max_backoff_interval: Option<u64>,
    pub cmd_timeout: Option<u64>,
    pub network_contacts: Option<SectionTree>,
}

/// The settings a client runs with once defaults are filled in.
#[derive(Debug)]
pub struct ClientSettings {
    pub keypair: ClientKeypair,
    pub dbc_owner: DbcOwner,
    pub local_addr: PeerAddr,
    pub query_timeout: u64,
    pub max_backoff_interval: u64,
    pub cmd_timeout: u64,
    pub network_contacts: SectionTree,
}

/// All interfaces, with a port the system picks.
pub open spec fn default_local_addr() -> PeerAddr {
    PeerAddr { ip: [0, 0, 0, 0, 0, 0, 0, 0, 0, 0, 0xff, 0xff, 0, 0, 0, 0], port: 0 }
}

impl ClientBuilder {
    /// A builder with nothing set.
    pub fn new() -> (r: ClientBuilder)
        ensures
            r.keypair.is_none() && r.dbc_owner.is_none() && r.local_addr.is_none() && r.query_timeout.is_none() && r.max_backoff_interval.is_none()
                && r.cmd_timeout.is_none() && r.network_contacts.is_none(),
    {
        ClientBuilder { keypair: None, dbc_owner: None, local_addr: None, query_timeout: None, max_backoff_interval: None, cmd_timeout: None, network_contacts: None }
    }

    /// The keypair the client signs its queries with.
    pub fn keypair(self, kp: Option<ClientKeypair>) -> (r: ClientBuilder)
        ensures
            r == (ClientBuilder { keypair: kp, ..self }),
    {
        ClientBuilder { keypair: kp, ..self }
    }

    /// The owner of the client's certificates.
    pub fn dbc_owner(self, owner: Option<DbcOwner>) -> (r: ClientBuilder)
        ensures
            r == (ClientBuilder { dbc_owner: owner, ..self }),
    {
        ClientBuilder { dbc_owner: owner, ..self }
    }

    /// The local address to bind the client endpoint to.
    pub fn local_addr(self, addr: Option<PeerAddr>) -> (r: ClientBuilder)
        ensures
            r == (ClientBuilder { local_addr: addr, ..self }),
    {
        ClientBuilder { local_addr: addr, ..self }
    }

    /// Time to wait for responses to queries before giving up.
    pub fn query_timeout(self, timeout: Option<u64>) -> (r: ClientBuilder)
        ensures
            r == (ClientBuilder { query_timeout: timeout, ..self }),
    {
        ClientBuilder { query_timeout: timeout, ..self }
    }

    /// Longest wait between two attempts of an operation.
    pub fn max_backoff_interval(self, interval: Option<u64>) -> (r: ClientBuilder)
        ensures
            r == (ClientBuilder { max_backoff_interval: interval, ..self }),
    {
        ClientBuilder { max_backoff_interval: interval, ..self }
    }

    /// Time to wait for commands to succeed before giving up.
    pub fn cmd_timeout(self, timeout: Option<u64>) -> (r: ClientBuilder)
        ensures
            r == (ClientBuilder { cmd_timeout: timeout, ..self }),
    {
        ClientBuilder { cmd_timeout: timeout, ..self }
    }

    /// The section tree to bootstrap from.
    pub fn network_contacts(self, contacts: Option<SectionTree>) -> (r: ClientBuilder)
        ensures
            r == (ClientBuilder { network_contacts: contacts, ..self }),
    {
        ClientBuilder { network_contacts: contacts, ..self }
    }

    /// Overrides the timeouts with values read from the environment, given in
    /// seconds: each one that is present (and fits) replaces the setting.
    pub fn from_env_values(self, query_timeout_s: Option<u64>, max_backoff_interval_s: Option<u64>, cmd_timeout_s: Option<u64>) -> (r: ClientBuilder)
        ensures
            r.keypair == self.keypair,
            r.dbc_owner == self.dbc_owner,
            r.local_addr == self.local_addr,
            r.network_contacts == self.network_contacts,
            r.query_timeout == (match query_timeout_s {
                Some(v) if v <= u64::MAX / 1000 => Some((v * 1000) as u64),
                _ => self.query_timeout,
            }),
            r.max_backoff_interval == (match max_backoff_interval_s {
                Some(v) if v <= u64::MAX / 1000 => Some((v * 1000) as u64),
                _ => self.max_backoff_interval,
            }),
            r.cmd_timeout == (match cmd_timeout_s {
                Some(v) if v <= u64::MAX / 1000 => Some((v * 1000) as u64),
                _ => self.cmd_timeout,
            }),
    {
        let query_timeout = match query_timeout_s {
            Some(v) if v <= u64::MAX / 1000 => Some(v * 1000),
            _ => self.query_timeout,
        };
        let max_backoff_interval = match max_backoff_interval_s {
            Some(v) if v <= u64::MAX / 1000 => Some(v * 1000),
            _ => self.max_backoff_interval,
        };
        let cmd_timeout = match cmd_timeout_s {
            Some(v) if v <= u64::MAX / 1000 => Some(v * 1000),
            _ => self.cmd_timeout,
        };
        ClientBuilder { query_timeout, max_backoff_interval, cmd_timeout, ..self }
    }

    /// The settings with defaults filled in: 90 s timeouts, a 3 s backoff
    /// ceiling, all interfaces with a system-picked port, and `fresh_keypair`
    /// and `fresh_owner` (new random ones) when none were set. Without
    /// contacts of its own the client takes `default_contacts`, read from the
    /// default place; when those could not be read, the result is
    /// `NetworkContacts` with that reason.
    pub fn build(self, fresh_keypair: ClientKeypair, fresh_owner: DbcOwner, default_contacts: Result<SectionTree, String>)
        -> (r: Result<ClientSettings, ClientError>)
        ensures
            r.is_err() <==> (self.network_contacts.is_none() && default_contacts.is_err()),
            r.is_err() ==> (r.unwrap_err() matches ClientError::NetworkContacts(m) && m == default_contacts.unwrap_err()),
            r.is_ok() ==> ({
                let st = r.unwrap();
                &&& st.keypair == (match self.keypair { Some(k) => k, None => fresh_keypair })
                &&& st.dbc_owner == (match self.dbc_owner { Some(o) => o, None => fresh_owner })
                &&& st.local_addr == (match self.local_addr { Some(a) => a, None => default_local_addr() })
                &&& st.query_timeout == (match self.query_timeout { Some(t) => t, None => DEFAULT_QUERY_CMD_TIMEOUT_MS })
                &&& st.cmd_timeout == (match self.cmd_timeout { Some(t) => t, None => DEFAULT_QUERY_CMD_TIMEOUT_MS })
                &&& st.max_backoff_interval == (match self.max_backoff_interval {
                    Some(t) => t,
                    None => DEFAULT_MAX_QUERY_CMD_BACKOFF_INTERVAL_MS,
                })
                &&& st.network_contacts == (match self.network_contacts { Some(c) => c, None => default_contacts.unwrap() })
            }),
    {
        let network_contacts = match self.network_contacts {
            Some(c) => c,
            None => match default_contacts {
                Ok(c) => c,
                Err(e) => {
                    return Err(ClientError::NetworkContacts(e));
                },
            },
        };
        let keypair = match self.keypair {
            Some(k) => k,
            None => fresh_keypair,
        };
        let dbc_owner = match self.dbc_owner {
            Some(o) => o,
            None => fresh_owner,
        };
        let local_addr = match self.local_addr {
            Some(a) => a,
            None => PeerAddr { ip: [0, 0, 0, 0, 0, 0, 0, 0, 0, 0, 0xff, 0xff, 0, 0, 0, 0], port: 0 },
        };
        let query_timeout = match self.query_timeout {
            Some(t) => t,
            None => DEFAULT_QUERY_CMD_TIMEOUT_MS,
        };
        let cmd_timeout = match self.cmd_timeout {
            Some(t) => t,
            None => DEFAULT_QUERY_CMD_TIMEOUT_MS,
        };
        let max_backoff_interval = match self.max_backoff_interval {
            Some(t) => t,
            None => DEFAULT_MAX_QUERY_CMD_BACKOFF_INTERVAL_MS,
        };
        Ok(ClientSettings { keypair, dbc_owner, local_addr, query_timeout, max_backoff_interval, cmd_timeout, network_contacts })
    }
}

} // verus!
