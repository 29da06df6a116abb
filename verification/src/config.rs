//! Application settings and their validated updates.
use vstd::prelude::*;
use crate::text::is_blank;

verus! {

/// Errors of loading, saving and updating settings.
#[derive(Debug)]
pub enum ConfigError {
    IoError(String),
    SerializationError(String),
    ValidationError(String),
}

impl ConfigError {
    /// The text of the error: its kind, then its detail.
    pub open spec fn spec_message(&self) -> Seq<char> {
        match self {
            ConfigError::IoError(m) => "IO error: "@ + m@,
            ConfigError::SerializationError(m) => "Serialization error: "@ + m@,
            ConfigError::ValidationError(m) => "Validation error: "@ + m@,
        }
    }

    /// The text of the error: its kind, then its detail.
    pub fn message(&self) -> (res: String)
        ensures
            res@ == self.spec_message(),
    {
        let (mut s, m) = match self {
            ConfigError::IoError(m) => ("IO error: ".to_string(), m),
            ConfigError::SerializationError(m) => ("Serialization error: ".to_string(), m),
            ConfigError::ValidationError(m) => ("Validation error: ".to_string(), m),
        };
        s.append(m.as_str());
        s
    }
}

/// Network settings.
#[derive(Debug, Clone)]
pub struct NetworkConfig {
    pub port: u16,
    pub max_peers: usize,
    pub connection_timeout: u64,
    pub enable_upnp: bool,
    pub enable_stun: bool,
}

/// Storage settings.
#[derive(Debug, Clone)]
pub struct StorageConfig {
    pub data_path: String,
    pub backup_interval: u64,
    pub max_backups: usize,
    pub auto_backup: bool,
}

/// Security settings.
#[derive(Debug, Clone)]
pub struct SecurityConfig {
    pub encryption_enabled: bool,
    pub require_verification: bool,
    pub auto_accept_contacts: bool,
    pub blocked_ips: Vec<String>,
}

/// All application settings.
#[derive(Debug, Clone)]
pub struct AppConfig {
    pub user_name: String,
    pub network: NetworkConfig,
    pub storage: StorageConfig,
    pub security: SecurityConfig,
    pub version: String,
}

/// The default network settings.
pub open spec fn is_default_network(n: NetworkConfig) -> bool {
    &&& n.port == 8080
    &&& n.max_peers == 50
    &&& n.connection_timeout == 30
    &&& n.enable_upnp
    &&& n.enable_stun
}

/// The default storage settings.
pub open spec fn is_default_storage(s: StorageConfig) -> bool {
    &&& s.data_path@ == "./data"@
    &&& s.backup_interval == 86400
    &&& s.max_backups == 7
    &&& s.auto_backup
}

/// The default security settings.
pub open spec fn is_default_security(s: SecurityConfig) -> bool {
    &&& s.encryption_enabled
    &&& s.require_verification
    &&& !s.auto_accept_contacts
    &&& s.blocked_ips@.len() == 0
}

/// The default application settings.
pub open spec fn is_default_config(c: AppConfig) -> bool {
    &&& c.user_name@ == "user"@
    &&& is_default_network(c.network)
    &&& is_default_storage(c.storage)
    &&& is_default_security(c.security)
    &&& c.version@ == "0.1.0"@
}

/// The blocked addresses as text.
pub open spec fn blocked_list(c: AppConfig) -> Seq<Seq<char>> {
    c.security.blocked_ips@.map_values(|s: String| s@)
}

/// The predicate of a text that is not `ip`.
pub open spec fn differs_from(ip: Seq<char>) -> spec_fn(Seq<char>) -> bool {
    |x: Seq<char>| x != ip
}

/// `list` with `ip` appended, unless it holds `ip` already.
pub open spec fn with_blocked(list: Seq<Seq<char>>, ip: Seq<char>) -> Seq<Seq<char>> {
    if list.contains(ip) {
        list
    } else {
        list.push(ip)
    }
}

/// That `a` and `b` agree on everything but the blocked addresses.
pub open spec fn same_but_blocked(a: AppConfig, b: AppConfig) -> bool {
    &&& a.user_name == b.user_name
    &&& a.network == b.network
    &&& a.storage == b.storage
    &&& a.security.encryption_enabled == b.security.encryption_enabled
    &&& a.security.require_verification == b.security.require_verification
    &&& a.security.auto_accept_contacts == b.security.auto_accept_contacts
    &&& a.version == b.version
}

impl Default for NetworkConfig {
    fn default() -> (res: Self)
        ensures
            is_default_network(res),
    {
        NetworkConfig {
            port: 8080,
            max_peers: 50,
            connection_timeout: 30,
            enable_upnp: true,
            enable_stun: true,
        }
    }
}

impl Default for StorageConfig {
    fn default() -> (res: Self)
        ensures
            is_default_storage(res),
    {
        StorageConfig {
            data_path: "./data".to_string(),
            backup_interval: 86400,
            max_backups: 7,
            auto_backup: true,
        }
    }
}

impl Default for SecurityConfig {
    fn default() -> (res: Self)
        ensures
            is_default_security(res),
    {
        SecurityConfig {
            encryption_enabled: true,
            require_verification: true,
            auto_accept_contacts: false,
            blocked_ips: Vec::new(),
        }
    }
}

impl Default for AppConfig {
    fn default() -> (res: Self)
        ensures
            is_default_config(res),
    {
        AppConfig {
            user_name: "user".to_string(),
            network: NetworkConfig::default(),
            storage: StorageConfig::default(),
            security: SecurityConfig::default(),
            version: "0.1.0".to_string(),
        }
    }
}

/// The settings of one installation and the file they live in.
pub struct ConfigManager {
    config: AppConfig,
    config_path: String,
}

impl ConfigManager {
    /// The current settings.
    pub closed spec fn spec_config(&self) -> AppConfig {
        self.config
    }

    /// The path of the settings file.
    pub closed spec fn spec_path(&self) -> Seq<char> {
        self.config_path@
    }

    /// Default settings kept at `config_path`.
    pub fn new(config_path: String) -> (res: Self)
        ensures
            is_default_config(res.spec_config()),
            res.spec_path() == config_path@,
    {
        ConfigManager { config: AppConfig::default(), config_path }
    }

    /// The current settings.
    pub fn get_config(&self) -> (res: &AppConfig)
        ensures
            *res == self.spec_config(),
    {
        &self.config
    }

    /// The path of the settings file.
    pub fn get_config_path(&self) -> (res: &String)
        ensures
            res@ == self.spec_path(),
    {
        &self.config_path
    }

    /// Replaces all settings, as loading them from the file does.
    pub fn set_config(&mut self, config: AppConfig)
        ensures
            final(self).spec_config() == config,
            final(self).spec_path() == old(self).spec_path(),
    {
        self.config = config;
    }

    /// Sets the user name; a name that is empty after trimming is refused.
    pub fn update_user_name(&mut self, name: String) -> (res: Result<(), ConfigError>)
        ensures
            final(self).spec_path() == old(self).spec_path(),
            crate::text::trim(name@).len() == 0 ==> (res matches Err(ConfigError::ValidationError(m))
                && m@ == "Name cannot be empty"@ && final(self).spec_config() == old(self).spec_config()),
            crate::text::trim(name@).len() > 0 ==> (res is Ok && final(self).spec_config()
                == (AppConfig { user_name: name, ..old(self).spec_config() })),
    {
        if is_blank(name.as_str()) {
            return Err(ConfigError::ValidationError("Name cannot be empty".to_string()));
        }
        self.config.user_name = name;
        Ok(())
    }

    /// Sets the listening port; ports below 1024 are refused.
    pub fn update_network_port(&mut self, port: u16) -> (res: Result<(), ConfigError>)
        ensures
            final(self).spec_path() == old(self).spec_path(),
            port < 1024 ==> (res matches Err(ConfigError::ValidationError(m)) && m@
                == "Port must be >= 1024"@ && final(self).spec_config() == old(self).spec_config()),
            port >= 1024 ==> (res is Ok && final(self).spec_config() == (AppConfig {
                network: NetworkConfig { port, ..old(self).spec_config().network },
                ..old(self).spec_config()
            })),
    {
        if port < 1024 {
            return Err(ConfigError::ValidationError("Port must be >= 1024".to_string()));
        }
        self.config.network.port = port;
        Ok(())
    }

    /// Sets the data directory; a path that is empty after trimming is refused.
    pub fn update_data_path(&mut self, path: String) -> (res: Result<(), ConfigError>)
        ensures
            final(self).spec_path() == old(self).spec_path(),
            crate::text::trim(path@).len() == 0 ==> (res matches Err(ConfigError::ValidationError(m))
                && m@ == "Path cannot be empty"@ && final(self).spec_config() == old(self).spec_config()),
            crate::text::trim(path@).len() > 0 ==> (res is Ok && final(self).spec_config() == (
            AppConfig {
                storage: StorageConfig { data_path: path, ..old(self).spec_config().storage },
                ..old(self).spec_config()
            })),
    {
        if is_blank(path.as_str()) {
            return Err(ConfigError::ValidationError("Path cannot be empty".to_string()));
        }
        self.config.storage.data_path = path;
        Ok(())
    }

    /// Adds `ip` to the blocked addresses unless it is there already.
    pub fn add_blocked_ip(&mut self, ip: String) -> (res: Result<(), ConfigError>)
        ensures
            res is Ok,
            final(self).spec_path() == old(self).spec_path(),
            same_but_blocked(final(self).spec_config(), old(self).spec_config()),
            blocked_list(final(self).spec_config()) == with_blocked(
                blocked_list(old(self).spec_config()),
                ip@,
            ),
    {
        let ghost before = blocked_list(self.config);
        let n = self.config.security.blocked_ips.len();
        let mut found = false;
        let mut i: usize = 0;
        while i < n
            invariant
                n == self.config.security.blocked_ips@.len(),
                i <= n,
                before == blocked_list(self.config),
                before.len() == n,
                found == (exists|j: int| 0 <= j < i && #[trigger] before[j] == ip@),
            decreases n - i,
        {
            let same = self.config.security.blocked_ips[i] == ip;
            assert(before[i as int] == self.config.security.blocked_ips@[i as int]@);
            if same {
                found = true;
            }
            i = i + 1;
        }
        proof {
            if found {
                let j = choose|j: int| 0 <= j < i && #[trigger] before[j] == ip@;
                assert(before.contains(ip@));
            } else {
                assert forall|j: int| 0 <= j < before.len() implies before[j] != ip@ by {}
            }
        }
        if !found {
            self.config.security.blocked_ips.push(ip);
            assert(blocked_list(self.config) =~= before.push(ip@));
        }
        Ok(())
    }

    /// Removes every occurrence of `ip` from the blocked addresses.
    pub fn remove_blocked_ip(&mut self, ip: &str) -> (res: Result<(), ConfigError>)
        ensures
            res is Ok,
            final(self).spec_path() == old(self).spec_path(),
            same_but_blocked(final(self).spec_config(), old(self).spec_config()),
            blocked_list(final(self).spec_config()) == blocked_list(old(self).spec_config()).filter(
                differs_from(ip@),
            ),
    {
        let ghost before = blocked_list(self.config);
        let target = ip.to_owned();
        let n = self.config.security.blocked_ips.len();
        let mut kept: Vec<String> = Vec::new();
        let mut i: usize = 0;
        while i < n
            invariant
                n == self.config.security.blocked_ips@.len(),
                i <= n,
                target@ == ip@,
                before == blocked_list(self.config),
                before.len() == n,
                kept@.map_values(|s: String| s@) == before.subrange(0, i as int).filter(
                    differs_from(ip@),
                ),
            decreases n - i,
        {
            let item = &self.config.security.blocked_ips[i];
            let ghost pre = before.subrange(0, i as int);
            let ghost next = before.subrange(0, i + 1);
            assert(next.drop_last() =~= pre);
            assert(next.last() == item@);
            assert(next.filter(differs_from(ip@)) == (if item@ != ip@ {
                pre.filter(differs_from(ip@)).push(item@)
            } else {
                pre.filter(differs_from(ip@))
            })) by {
                reveal(Seq::filter);
            }
            if !(*item == target) {
                kept.push(item.clone());
                assert(kept@.map_values(|s: String| s@) =~= next.filter(differs_from(ip@)));
            }
            i = i + 1;
        }
        assert(before.subrange(0, n as int) =~= before);
        self.config.security.blocked_ips = kept;
        Ok(())
    }

    /// Restores the default settings.
    pub fn reset_to_defaults(&mut self)
        ensures
            is_default_config(final(self).spec_config()),
            final(self).spec_path() == old(self).spec_path(),
    {
        self.config = AppConfig::default();
    }
}

/// Blocking an address that is blocked already changes nothing.
pub proof fn lemma_block_twice_is_once(list: Seq<Seq<char>>, ip: Seq<char>)
    ensures
        with_blocked(with_blocked(list, ip), ip) == with_blocked(list, ip),
        with_blocked(list, ip).contains(ip),
{
    if !list.contains(ip) {
        assert(list.push(ip)[list.len() as int] == ip);
    }
}

/// Unblocking an address undoes blocking it: the list is as if it had only been unblocked,
/// and the address is in it no more.
pub proof fn lemma_unblock_after_block(list: Seq<Seq<char>>, ip: Seq<char>)
    ensures
        with_blocked(list, ip).filter(differs_from(ip)) == list.filter(differs_from(ip)),
        !list.filter(differs_from(ip)).contains(ip),
{
    if !list.contains(ip) {
        assert(list.push(ip).drop_last() =~= list);
        assert(list.push(ip).filter(differs_from(ip)) == list.filter(differs_from(ip))) by {
            reveal(Seq::filter);
        }
    }
    broadcast use vstd::seq_lib::group_filter_ensures;
    if list.filter(differs_from(ip)).contains(ip) {
        let k = choose|k: int| 0 <= k < list.filter(differs_from(ip)).len()
            && list.filter(differs_from(ip))[k] == ip;
        assert(differs_from(ip)(list.filter(differs_from(ip))[k]));
    }
}

} // verus!
