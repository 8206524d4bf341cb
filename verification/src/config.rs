//! Configuration as plain values. The TOML document is read and parsed at
//! boot outside the library; what arrives here is the already-parsed server
//! section, consumed through narrow getters. The values never change for
//! the life of the process.

use vstd::prelude::*;

use crate::errors::SyncError;
use crate::text::push_str;
use crate::text::str_eq;

verus! {

/// The `server` section of the configuration document.
pub struct ServerConfig {
    /// `master` or `slave`; decides which control loop runs.
    pub role: String,
    /// The address this process binds or reports as its own.
    pub host: String,
    /// Addresses trusted to push uploads (the slave's allow-list).
    pub master_address: Option<Vec<String>>,
    /// Addresses of the slaves a master distributes to.
    pub slave_address: Option<Vec<String>>,
    /// The directory under which the watched files live.
    pub watch_path: String,
    /// The watched file names, relative to `watch_path`.
    pub specific_files: Vec<String>,
    /// Chooses the read-once distribution strategy when set.
    pub io_bound_improvement: bool,
    /// Where a slave keeps pre-overwrite backups.
    pub slave_backup_path: Option<String>,
    /// The audit sink's addresses.
    pub elastic_host: Option<Vec<String>>,
    /// The audit sink's account.
    pub elastic_id: Option<String>,
    /// The audit sink's password.
    pub elastic_pw: Option<String>,
    /// How many days a backup bucket is kept; 7 when absent.
    pub backup_days: Option<i64>,
    /// Where the Hash Store document lives.
    pub hash_storage_path: Option<String>,
    /// Whether transport runs over mutual TLS.
    pub secure_mode: Option<bool>,
    /// Where the TLS material lives; `keys` when absent.
    pub key_directory: Option<String>,
}

impl ServerConfig {
    /// The absolute path of every watched file: the watch path with the
    /// file name appended.
    pub fn get_watch_file_list(&self) -> (r: Vec<String>)
        ensures
            r@.len() == self.specific_files@.len(),
            forall|i: int|
                0 <= i < r@.len() ==> (#[trigger] r@[i])@ == self.watch_path@
                    + self.specific_files@[i]@,
    {
        let mut out: Vec<String> = Vec::new();
        let mut i: usize = 0;
        while i < self.specific_files.len()
            invariant
                0 <= i <= self.specific_files@.len(),
                out@.len() == i,
                forall|j: int|
                    0 <= j < i ==> (#[trigger] out@[j])@ == self.watch_path@
                        + self.specific_files@[j]@,
            decreases self.specific_files@.len() - i,
        {
            let mut s = self.watch_path.clone();
            push_str(&mut s, self.specific_files[i].as_str());
            out.push(s);
            i += 1;
        }
        out
    }

    /// The watched directory.
    pub fn get_watch_dir_path(&self) -> (r: String)
        ensures
            r@ == self.watch_path@,
    {
        self.watch_path.clone()
    }

    /// Whether mutual TLS is switched on; absent means off.
    pub fn is_secure_mode(&self) -> (r: bool)
        ensures
            r == (self.secure_mode == Some(true)),
    {
        match &self.secure_mode {
            Some(b) => *b,
            None => false,
        }
    }

    /// Where the TLS material lives; `keys` when not configured.
    pub fn get_key_directory(&self) -> (r: String)
        ensures
            match self.key_directory {
                Some(ref k) => r@ == k@,
                None => r@ == "keys"@,
            },
    {
        match &self.key_directory {
            Some(k) => k.clone(),
            None => "keys".to_owned(),
        }
    }
}

/// The whole configuration document.
pub struct Configs {
    pub server: ServerConfig,
}

/// Wraps the parsed server section into the configuration the rest of the
/// library consumes. Reading and parsing the document happens at boot,
/// outside the library; a missing or invalid document aborts there.
pub fn initialize_server_configs(server: ServerConfig) -> (r: Configs)
    ensures
        r.server == server,
{
    Configs { server }
}

/// One watched file: its configured name and its resolved absolute path.
pub struct MonitoringPathInfo {
    pub file_path: String,
    pub full_file_path: String,
}

impl MonitoringPathInfo {
    pub fn new(file_path: String, full_file_path: String) -> (r: Self)
        ensures
            r.file_path@ == file_path@,
            r.full_file_path@ == full_file_path@,
    {
        MonitoringPathInfo { file_path, full_file_path }
    }
}

/// The exact location of every monitored file, with the configured name it
/// will be distributed under.
pub fn get_monitoring_file_detail_path(config: &Configs) -> (r: Vec<MonitoringPathInfo>)
    ensures
        r@.len() == config.server.specific_files@.len(),
        forall|i: int|
            0 <= i < r@.len() ==> (#[trigger] r@[i]).file_path@ == config.server.specific_files@[i]@
                && r@[i].full_file_path@ == config.server.watch_path@
                + config.server.specific_files@[i]@,
{
    let mut out: Vec<MonitoringPathInfo> = Vec::new();
    let mut i: usize = 0;
    while i < config.server.specific_files.len()
        invariant
            0 <= i <= config.server.specific_files@.len(),
            out@.len() == i,
            forall|j: int|
                0 <= j < i ==> (#[trigger] out@[j]).file_path@
                    == config.server.specific_files@[j]@ && out@[j].full_file_path@
                    == config.server.watch_path@ + config.server.specific_files@[j]@,
        decreases config.server.specific_files@.len() - i,
    {
        let name = config.server.specific_files[i].clone();
        let mut full = config.server.watch_path.clone();
        push_str(&mut full, config.server.specific_files[i].as_str());
        out.push(MonitoringPathInfo::new(name, full));
        i += 1;
    }
    out
}

/// Whether a configured role names the master side; anything else runs as a
/// slave, as in the boot-time dispatch.
pub fn is_master_role(role: &str) -> (r: bool)
    ensures
        r == (role@ == "master"@),
{
    str_eq(role, "master")
}

/// Read-only access to the configuration, bound once at construction.
pub struct ConfigServicePub {
    pub config: Configs,
}

impl ConfigServicePub {
    /// Wraps an already-loaded configuration; the document itself is read
    /// and parsed at boot, outside the library.
    pub fn new(config: Configs) -> (r: Self)
        ensures
            r.config == config,
    {
        ConfigServicePub { config }
    }

    /// The watched directory.
    pub fn get_watch_dir_info(&self) -> (r: String)
        ensures
            r@ == self.config.server.watch_path@,
    {
        self.config.server.watch_path.clone()
    }

    /// The configured role.
    pub fn get_role(&self) -> (r: String)
        ensures
            r@ == self.config.server.role@,
    {
        self.config.server.role.clone()
    }

    /// The configured slave addresses; their absence is a configuration
    /// error.
    pub fn get_slave_address(&self) -> (r: Result<Vec<String>, SyncError>)
        ensures
            match self.config.server.slave_address {
                Some(ref v) => r is Ok && r.unwrap()@ == v@,
                None => r == Err::<Vec<String>, SyncError>(SyncError::ConfigError),
            },
    {
        match &self.config.server.slave_address {
            Some(v) => Ok(clone_string_vec(v)),
            None => Err(SyncError::ConfigError),
        }
    }

    /// The absolute path of every watched file.
    pub fn get_watch_file_list(&self) -> (r: Vec<String>)
        ensures
            r@.len() == self.config.server.specific_files@.len(),
            forall|i: int|
                0 <= i < r@.len() ==> (#[trigger] r@[i])@ == self.config.server.watch_path@
                    + self.config.server.specific_files@[i]@,
    {
        self.config.server.get_watch_file_list()
    }

    /// This process's own address.
    pub fn get_host_info(&self) -> (r: String)
        ensures
            r@ == self.config.server.host@,
    {
        self.config.server.host.clone()
    }

    /// The configured master addresses; their absence is a configuration
    /// error.
    pub fn get_master_address(&self) -> (r: Result<Vec<String>, SyncError>)
        ensures
            match self.config.server.master_address {
                Some(ref v) => r is Ok && r.unwrap()@ == v@,
                None => r == Err::<Vec<String>, SyncError>(SyncError::ConfigError),
            },
    {
        match &self.config.server.master_address {
            Some(v) => Ok(clone_string_vec(v)),
            None => Err(SyncError::ConfigError),
        }
    }

    /// Where a slave keeps its backups; its absence is a configuration
    /// error.
    pub fn get_slave_backup_path(&self) -> (r: Result<String, SyncError>)
        ensures
            match self.config.server.slave_backup_path {
                Some(ref p) => r is Ok && r.unwrap()@ == p@,
                None => r == Err::<String, SyncError>(SyncError::ConfigError),
            },
    {
        match &self.config.server.slave_backup_path {
            Some(p) => Ok(p.clone()),
            None => Err(SyncError::ConfigError),
        }
    }
}

/// Copies a vector of strings.
pub fn clone_string_vec(v: &Vec<String>) -> (r: Vec<String>)
    ensures
        r@ == v@,
{
    let mut out: Vec<String> = Vec::new();
    let mut i: usize = 0;
    while i < v.len()
        invariant
            0 <= i <= v@.len(),
            out@ == v@.subrange(0, i as int),
        decreases v@.len() - i,
    {
        out.push(v[i].clone());
        proof {
            assert(v@.subrange(0, i as int + 1) =~= v@.subrange(0, i as int).push(v@[i as int]));
        }
        i += 1;
    }
    proof {
        assert(v@.subrange(0, v@.len() as int) =~= v@);
    }
    out
}

} // verus!
