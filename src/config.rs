//! Node configuration: the settings, their validation and how settings from
//! the command line override stored ones.
use vstd::prelude::*;
use crate::sap::PeerAddr;

verus! {

/// Storage the network asks of a node, in bytes: 1 GiB.
pub const DEFAULT_MIN_CAPACITY: usize = 1024 * 1024 * 1024;

/// Storage a node offers at most, in bytes.
pub const DEFAULT_MAX_CAPACITY: usize = 2 * DEFAULT_MIN_CAPACITY;

/// A configuration error, with its message.
#[derive(Clone, Debug)]
pub enum ConfigError {
    Configuration(String),
}

/// How much is logged.
#[derive(Clone, Copy, Debug, PartialEq, Eq, Structural)]
pub enum LogLevel {
    Error,
    Warn,
    Info,
    Debug,
    Trace,
}

/// Node configuration.
#[derive(Clone, Debug)]
pub struct Config {
    /// The address credited when this node farms coin (a hex BLS public key).
    pub wallet_id: Option<String>,
    /// Root directory for stores and cached state.
    pub root_dir: Option<String>,
    /// Verbosity: 0 errors only, up to 4 and beyond for everything.
    pub verbose: u8,
    /// Shell for which to print completions.
    pub completions: Option<String>,
    /// Directory for log files.
    pub log_dir: Option<String>,
    /// Rotated log files to keep (0 keeps all).
    pub logs_retained: usize,
    /// Maximum bytes per log file.
    pub logs_max_bytes: usize,
    /// Maximum lines per log file (overrides the byte limit).
    pub logs_max_lines: usize,
    /// Rotated files left uncompressed.
    pub logs_uncompressed: usize,
    /// Attempt to self-update.
    pub update: bool,
    /// Attempt to self-update without starting the node.
    pub update_only: bool,
    /// Log in JSON.
    pub json_logs: bool,
    /// Print resource usage.
    pub resource_logs: bool,
    /// Delete the data of an earlier node at start.
    pub clear_data: bool,
    /// This node starts the network as its only elder.
    pub first: bool,
    /// File holding a section tree to join through.
    pub network_contacts_file: Option<String>,
    /// Local address; all interfaces and a port the system picks when unset.
    pub local_addr: Option<PeerAddr>,
    /// No longer used.
    pub skip_auto_port_forwarding: bool,
}

/// The settings that `merge(base, over)` gives.
pub open spec fn merged(base: Config, over: Config) -> Config {
    Config {
        wallet_id: if over.wallet_id.is_some() { over.wallet_id } else { base.wallet_id },
        root_dir: if over.root_dir.is_some() { over.root_dir } else { base.root_dir },
        verbose: if over.verbose > 0 { over.verbose } else { base.verbose },
        completions: if over.completions.is_some() { over.completions } else { base.completions },
        log_dir: if over.log_dir.is_some() { over.log_dir } else { base.log_dir },
        logs_retained: over.logs_retained,
        logs_max_bytes: over.logs_max_bytes,
        logs_max_lines: over.logs_max_lines,
        logs_uncompressed: over.logs_uncompressed,
        update: over.update || base.update,
        update_only: over.update_only || base.update_only,
        json_logs: over.json_logs,
        resource_logs: over.resource_logs,
        clear_data: over.clear_data || base.clear_data,
        first: over.first || base.first,
        network_contacts_file: if over.network_contacts_file.is_some() { over.network_contacts_file } else { base.network_contacts_file },
        local_addr: if over.local_addr.is_some() { over.local_addr } else { base.local_addr },
        skip_auto_port_forwarding: base.skip_auto_port_forwarding,
    }
}

/// The level that a verbosity stands for.
pub open spec fn level_of(v: u8) -> LogLevel {
    if v == 0 {
        LogLevel::Error
    } else if v == 1 {
        LogLevel::Warn
    } else if v == 2 {
        LogLevel::Info
    } else if v == 3 {
        LogLevel::Debug
    } else {
        LogLevel::Trace
    }
}

/// The unspecified IPv4 address, mapped into IPv6, with port 0.
pub open spec fn unspecified_addr() -> PeerAddr {
    PeerAddr { ip: [0, 0, 0, 0, 0, 0, 0, 0, 0, 0, 0xff, 0xff, 0, 0, 0, 0], port: 0 }
}

impl Config {
    /// The configuration with nothing set.
    pub fn new_default() -> (r: Config)
        ensures
            r.wallet_id.is_none() && r.root_dir.is_none() && r.completions.is_none() && r.log_dir.is_none(),
            r.network_contacts_file.is_none() && r.local_addr.is_none(),
            r.verbose == 0 && r.logs_retained == 0 && r.logs_max_bytes == 0 && r.logs_max_lines == 0 && r.logs_uncompressed == 0,
            !r.update && !r.update_only && !r.json_logs && !r.resource_logs && !r.clear_data && !r.first
                && !r.skip_auto_port_forwarding,
    {
        Config {
            wallet_id: None,
            root_dir: None,
            verbose: 0,
            completions: None,
            log_dir: None,
            logs_retained: 0,
            logs_max_bytes: 0,
            logs_max_lines: 0,
            logs_uncompressed: 0,
            update: false,
            update_only: false,
            json_logs: false,
            resource_logs: false,
            clear_data: false,
            first: false,
            network_contacts_file: None,
            local_addr: None,
            skip_auto_port_forwarding: false,
        }
    }

    /// Checks what one field cannot: exactly one of `first` and
    /// `network_contacts_file` is given.
    pub fn validate(&self) -> (r: Result<(), ConfigError>)
        ensures
            r.is_ok() <==> (self.first != self.network_contacts_file.is_some()),
    {
        if self.first == self.network_contacts_file.is_some() {
            return Err(ConfigError::Configuration(
                "Either the --first or --network-contacts-file argument is required, and they are mutually exclusive. Please run the command again and use one or the other, but not both, of these arguments.".to_string(),
            ));
        }
        Ok(())
    }

    /// Overwrites these settings with those given in `config`: options that
    /// are set, a non-zero verbosity, the log limits and log formats; flags
    /// that are raised in either.
    pub fn merge(&mut self, config: Config)
        ensures
            *final(self) == merged(*old(self), config),
    {
        let mut base = Config::new_default();
        core::mem::swap(self, &mut base);
        let over_wallet = config.wallet_id.is_some();
        let over_root = config.root_dir.is_some();
        let over_completions = config.completions.is_some();
        let over_log_dir = config.log_dir.is_some();
        let over_contacts = config.network_contacts_file.is_some();
        *self = Config {
            wallet_id: if over_wallet { config.wallet_id } else { base.wallet_id },
            root_dir: if over_root { config.root_dir } else { base.root_dir },
            verbose: if config.verbose > 0 { config.verbose } else { base.verbose },
            completions: if over_completions { config.completions } else { base.completions },
            log_dir: if over_log_dir { config.log_dir } else { base.log_dir },
            logs_retained: config.logs_retained,
            logs_max_bytes: config.logs_max_bytes,
            logs_max_lines: config.logs_max_lines,
            logs_uncompressed: config.logs_uncompressed,
            update: config.update || base.update,
            update_only: config.update_only || base.update_only,
            json_logs: config.json_logs,
            resource_logs: config.resource_logs,
            clear_data: config.clear_data || base.clear_data,
            first: config.first || base.first,
            network_contacts_file: if over_contacts { config.network_contacts_file } else { base.network_contacts_file },
            local_addr: if config.local_addr.is_some() { config.local_addr } else { base.local_addr },
            skip_auto_port_forwarding: base.skip_auto_port_forwarding,
        };
    }

    /// The address credited when this node farms coin.
    pub fn wallet_id(&self) -> (r: Option<&String>)
        ensures
            r.is_some() == self.wallet_id.is_some(),
            r.is_some() ==> *r.unwrap() == self.wallet_id.unwrap(),
    {
        match &self.wallet_id {
            Some(w) => Some(w),
            None => None,
        }
    }

    /// Whether this node starts the network.
    pub fn is_first(&self) -> (r: bool)
        ensures
            r == self.first,
    {
        self.first
    }

    /// The network contacts file, if any.
    pub fn network_contacts_file(&self) -> (r: Option<String>)
        ensures
            r.is_some() == self.network_contacts_file.is_some(),
            r.is_some() ==> r.unwrap()@ == self.network_contacts_file.unwrap()@,
    {
        match &self.network_contacts_file {
            Some(f) => Some(f.clone()),
            None => None,
        }
    }

    /// The storage the network asks of a node, in bytes.
    pub fn min_capacity(&self) -> (r: usize)
        ensures
            r == DEFAULT_MIN_CAPACITY,
    {
        DEFAULT_MIN_CAPACITY
    }

    /// The storage this node offers at most, in bytes.
    pub fn max_capacity(&self) -> (r: usize)
        ensures
            r == DEFAULT_MAX_CAPACITY,
    {
        DEFAULT_MAX_CAPACITY
    }

    /// Sets the root directory.
    pub fn set_root_dir(&mut self, path: String)
        ensures
            *final(self) == (Config { root_dir: Some(path), ..*old(self) }),
    {
        self.root_dir = Some(path);
    }

    /// Sets the log directory.
    pub fn set_log_dir(&mut self, path: String)
        ensures
            *final(self) == (Config { log_dir: Some(path), ..*old(self) }),
    {
        self.log_dir = Some(path);
    }

    /// The log level that the verbosity stands for.
    pub fn verbose(&self) -> (r: LogLevel)
        ensures
            r == level_of(self.verbose),
    {
        match self.verbose {
            0 => LogLevel::Error,
            1 => LogLevel::Warn,
            2 => LogLevel::Info,
            3 => LogLevel::Debug,
            _ => LogLevel::Trace,
        }
    }

    /// The local address: the one set, else all interfaces with a port the
    /// system picks.
    pub fn local_addr(&self) -> (r: PeerAddr)
        ensures
            self.local_addr.is_some() ==> r == self.local_addr.unwrap(),
            self.local_addr.is_none() ==> r == unspecified_addr(),
    {
        match self.local_addr {
            Some(a) => a,
            None => PeerAddr { ip: [0, 0, 0, 0, 0, 0, 0, 0, 0, 0, 0xff, 0xff, 0, 0, 0, 0], port: 0 },
        }
    }

    /// The shell to print completions for.
    pub fn completions(&self) -> (r: &Option<String>)
        ensures
            *r == self.completions,
    {
        &self.completions
    }

    /// The log directory.
    pub fn log_dir(&self) -> (r: &Option<String>)
        ensures
            *r == self.log_dir,
    {
        &self.log_dir
    }

    pub fn logs_retained(&self) -> (r: usize)
        ensures
            r == self.logs_retained,
    {
        self.logs_retained
    }

    pub fn logs_max_lines(&self) -> (r: usize)
        ensures
            r == self.logs_max_lines,
    {
        self.logs_max_lines
    }

    pub fn logs_max_bytes(&self) -> (r: usize)
        ensures
            r == self.logs_max_bytes,
    {
        self.logs_max_bytes
    }

    pub fn logs_uncompressed(&self) -> (r: usize)
        ensures
            r == self.logs_uncompressed,
    {
        self.logs_uncompressed
    }

    pub fn update(&self) -> (r: bool)
        ensures
            r == self.update,
    {
        self.update
    }

    pub fn update_only(&self) -> (r: bool)
        ensures
            r == self.update_only,
    {
        self.update_only
    }
}

} // verus!
