//! Node configuration: defaults, completion of a loaded file, and the rules
//! checked before saving.

use vstd::prelude::*;
use crate::device::opt_str_view;
use crate::utils::{generate_device_id, six_digits};

verus! {

/// Errors of configuration handling.
#[derive(Debug, Clone, Copy, PartialEq, Eq, Structural)]
pub enum ConfigError {
    /// `max_history_size` is missing or not greater than 1.
    MaxHistoryTooSmall,
    /// Neither an explicit path nor a configuration directory is available.
    NoConfigDirectory,
}

/// The node's configuration.
#[derive(Debug, Clone)]
pub struct Config {
    pub device_id: String,
    pub device_name: Option<String>,
    pub enable_webdav: Option<bool>,
    pub webdav_url: Option<String>,
    pub username: Option<String>,
    pub password: Option<String>,
    pub max_history_size: Option<u64>,
    /// ms
    pub push_interval: Option<u64>,
    /// ms
    pub pull_interval: Option<u64>,
    /// ms
    pub sync_interval: Option<u64>,
    pub enable_push: Option<bool>,
    pub enable_pull: Option<bool>,
    pub enable_key_mouse_monitor: Option<bool>,
    /// ms
    pub key_mouse_monitor_sleep_timeout: Option<u64>,
    pub enable_websocket: Option<bool>,
    pub is_server: Option<bool>,
    /// address the websocket server binds to
    pub websocket_server_addr: Option<String>,
    /// port the websocket server binds to
    pub websocket_server_port: Option<u16>,
    /// websocket server address a client connects to
    pub connect_websocket_server_addr: Option<String>,
    /// websocket server port a client connects to
    pub connect_websocket_server_port: Option<u16>,
    /// address of the local web server
    pub webserver_addr: Option<String>,
    /// port of the local web server
    pub webserver_port: Option<u16>,
    /// address of the peer device to connect to
    pub peer_device_addr: Option<String>,
    /// service port of the peer device
    pub peer_device_port: Option<u16>,
}

/// The name given to a device that has none.
pub open spec fn default_device_name() -> Seq<char> {
    "未命名设备"@
}

/// The address the node's services bind to by default: every interface.
pub open spec fn default_server_addr() -> Seq<char> {
    "0.0.0.0"@
}

fn default_device_name_string() -> (s: String)
    ensures
        s@ == default_device_name(),
{
    proof { reveal_strlit("未命名设备"); }
    String::from_str("未命名设备")
}

fn default_server_addr_string() -> (s: String)
    ensures
        s@ == default_server_addr(),
{
    proof { reveal_strlit("0.0.0.0"); }
    String::from_str("0.0.0.0")
}

/// Whether `o` holds exactly the text `t`.
pub open spec fn holds_text(o: Option<String>, t: Seq<char>) -> bool {
    opt_str_view(o) == Some(t)
}

/// The defaults every configuration starts from (the device id aside).
pub open spec fn has_default_settings(c: Config) -> bool {
    &&& holds_text(c.device_name, default_device_name())
    &&& c.webdav_url is None
    &&& c.username is None
    &&& c.password is None
    &&& c.enable_webdav == Some(false)
    &&& c.max_history_size == Some(10u64)
    &&& c.push_interval == Some(500u64)
    &&& c.pull_interval == Some(500u64)
    &&& c.sync_interval == Some(500u64)
    &&& c.enable_push == Some(true)
    &&& c.enable_pull == Some(true)
    &&& c.enable_key_mouse_monitor == Some(true)
    &&& c.key_mouse_monitor_sleep_timeout == Some(5000u64)
    &&& c.enable_websocket == Some(true)
    &&& c.is_server == Some(true)
    &&& holds_text(c.websocket_server_addr, default_server_addr())
    &&& c.websocket_server_port == Some(8113u16)
    &&& c.connect_websocket_server_addr is None
    &&& c.connect_websocket_server_port is None
    &&& holds_text(c.webserver_addr, default_server_addr())
    &&& c.webserver_port == Some(8113u16)
    &&& c.peer_device_addr is None
    &&& c.peer_device_port is None
}

/// The value a setting has after completion: the loaded one when present,
/// the default otherwise.
pub open spec fn or_default<T>(loaded: Option<T>, default: Option<T>) -> Option<T> {
    match loaded {
        Some(v) => Some(v),
        None => default,
    }
}

/// The text of an optional string after completion with a default text.
pub open spec fn text_or_default(loaded: Option<String>, default: Seq<char>) -> Option<Seq<char>> {
    match loaded {
        Some(s) => Some(s@),
        None => Some(default),
    }
}

/// What completing `old` with the defaults gives: the settings that
/// `merge_with_default` fills, filled where missing; everything else as loaded.
pub open spec fn completed(old: Config, new: Config) -> bool {
    &&& new.device_id@ == old.device_id@
    &&& opt_str_view(new.device_name) == text_or_default(old.device_name, default_device_name())
    &&& new.enable_webdav == or_default(old.enable_webdav, Some(false))
    &&& opt_str_view(new.webdav_url) == opt_str_view(old.webdav_url)
    &&& opt_str_view(new.username) == opt_str_view(old.username)
    &&& opt_str_view(new.password) == opt_str_view(old.password)
    &&& new.max_history_size == or_default(old.max_history_size, Some(10u64))
    &&& new.push_interval == old.push_interval
    &&& new.pull_interval == old.pull_interval
    &&& new.sync_interval == old.sync_interval
    &&& new.enable_push == old.enable_push
    &&& new.enable_pull == old.enable_pull
    &&& new.enable_key_mouse_monitor == or_default(old.enable_key_mouse_monitor, Some(true))
    &&& new.key_mouse_monitor_sleep_timeout == or_default(old.key_mouse_monitor_sleep_timeout, Some(5000u64))
    &&& new.enable_websocket == or_default(old.enable_websocket, Some(true))
    &&& new.is_server == or_default(old.is_server, Some(true))
    &&& opt_str_view(new.websocket_server_addr) == text_or_default(old.websocket_server_addr, default_server_addr())
    &&& new.websocket_server_port == or_default(old.websocket_server_port, Some(8113u16))
    &&& opt_str_view(new.connect_websocket_server_addr) == opt_str_view(old.connect_websocket_server_addr)
    &&& new.connect_websocket_server_port == old.connect_websocket_server_port
    &&& opt_str_view(new.webserver_addr) == opt_str_view(old.webserver_addr)
    &&& new.webserver_port == old.webserver_port
    &&& opt_str_view(new.peer_device_addr) == opt_str_view(old.peer_device_addr)
    &&& new.peer_device_port == old.peer_device_port
}

/// Where the configuration file lives.
#[derive(Debug, Clone, PartialEq, Eq)]
pub enum ConfigLocation {
    /// The path given by the environment, as it stands.
    Explicit(String),
    /// The file `uniclipboard/config.toml` inside this configuration directory.
    InConfigDir(String),
}

impl Config {
    /// A configuration with the default settings and a fresh random
    /// six-digit device id.
    pub fn default() -> (c: Self)
        ensures
            has_default_settings(c),
            exists|n: nat| n < 1000000 && c.device_id@ == six_digits(n),
    {
        Config {
            device_id: generate_device_id(),
            device_name: Some(default_device_name_string()),
            webdav_url: None,
            username: None,
            password: None,
            enable_webdav: Some(false),
            max_history_size: Some(10),
            push_interval: Some(500),
            pull_interval: Some(500),
            sync_interval: Some(500),
            enable_push: Some(true),
            enable_pull: Some(true),
            enable_key_mouse_monitor: Some(true),
            key_mouse_monitor_sleep_timeout: Some(5000),
            enable_websocket: Some(true),
            is_server: Some(true),
            websocket_server_addr: Some(default_server_addr_string()),
            websocket_server_port: Some(8113),
            connect_websocket_server_addr: None,
            connect_websocket_server_port: None,
            webserver_addr: Some(default_server_addr_string()),
            webserver_port: Some(8113),
            peer_device_addr: None,
            peer_device_port: None,
        }
    }

    /// Fills the settings a loaded file may lack with their defaults.
    pub fn merge_with_default(&mut self)
        ensures
            completed(*old(self), *final(self)),
    {
        if self.enable_key_mouse_monitor.is_none() {
            self.enable_key_mouse_monitor = Some(true);
        }
        if self.key_mouse_monitor_sleep_timeout.is_none() {
            self.key_mouse_monitor_sleep_timeout = Some(5000);
        }
        if self.is_server.is_none() {
            self.is_server = Some(true);
        }
        if self.websocket_server_addr.is_none() {
            self.websocket_server_addr = Some(default_server_addr_string());
        }
        if self.websocket_server_port.is_none() {
            self.websocket_server_port = Some(8113);
        }
        if self.device_name.is_none() {
            self.device_name = Some(default_device_name_string());
        }
        if self.enable_webdav.is_none() {
            self.enable_webdav = Some(false);
        }
        if self.enable_websocket.is_none() {
            self.enable_websocket = Some(true);
        }
        if self.max_history_size.is_none() {
            self.max_history_size = Some(10);
        }
    }

    /// The device id.
    pub fn get_device_id(&self) -> (id: String)
        ensures
            id@ == self.device_id@,
    {
        self.device_id.clone()
    }

    /// The rule a configuration must meet to be saved: more than one history entry.
    pub fn check_savable(&self) -> (r: Result<(), ConfigError>)
        ensures
            r is Ok <==> (self.max_history_size matches Some(n) && n > 1),
            r is Err ==> r == Err::<(), ConfigError>(ConfigError::MaxHistoryTooSmall),
    {
        match self.max_history_size {
            Some(n) => {
                if n <= 1 {
                    Err(ConfigError::MaxHistoryTooSmall)
                } else {
                    Ok(())
                }
            },
            None => Err(ConfigError::MaxHistoryTooSmall),
        }
    }
}

/// Where the configuration file is: the path from the environment variable
/// when it is set, else inside the system configuration directory, if there is one.
pub fn resolve_config_location(env_path: Option<String>, config_dir: Option<String>) -> (r: Result<ConfigLocation, ConfigError>)
    ensures
        env_path matches Some(p) ==> (r matches Ok(ConfigLocation::Explicit(q)) && q@ == p@),
        env_path is None ==> (config_dir matches Some(d) ==> (r matches Ok(ConfigLocation::InConfigDir(q)) && q@ == d@)),
        env_path is None && config_dir is None ==> r == Err::<ConfigLocation, ConfigError>(ConfigError::NoConfigDirectory),
{
    match env_path {
        Some(p) => Ok(ConfigLocation::Explicit(p)),
        None => match config_dir {
            Some(d) => Ok(ConfigLocation::InConfigDir(d)),
            None => Err(ConfigError::NoConfigDirectory),
        },
    }
}

/// Law: completing a configuration twice is completing it once, and a
/// completed configuration has every filled setting present.
pub proof fn law_completion_idempotent(a: Config, b: Config, c: Config)
    requires
        completed(a, b),
        completed(b, c),
    ensures
        completed(a, c),
        b.device_name is Some && b.enable_webdav is Some && b.max_history_size is Some
            && b.enable_key_mouse_monitor is Some && b.key_mouse_monitor_sleep_timeout is Some
            && b.enable_websocket is Some && b.is_server is Some && b.websocket_server_addr is Some
            && b.websocket_server_port is Some,
{
}

/// Law: the default configuration can be saved.
pub proof fn law_default_savable(c: Config)
    requires
        has_default_settings(c),
    ensures
        c.max_history_size matches Some(n) && n > 1,
{
}

/// Law: completing a configuration keeps every setting that is present and
/// fills only the missing ones: each setting that `merge_with_default` fills
/// keeps its loaded value when it has one and takes its default only when it
/// has none; every other setting, and the device id, is kept as loaded.
pub proof fn law_completion_keeps_present(old: Config, new: Config)
    requires
        completed(old, new),
    ensures
        new.device_id@ == old.device_id@,
        old.device_name matches Some(v) ==> opt_str_view(new.device_name) == Some(v@),
        old.device_name is None ==> opt_str_view(new.device_name) == Some("未命名设备"@),
        old.enable_webdav matches Some(v) ==> new.enable_webdav == Some(v),
        old.enable_webdav is None ==> new.enable_webdav == Some(false),
        old.max_history_size matches Some(v) ==> new.max_history_size == Some(v),
        old.max_history_size is None ==> new.max_history_size == Some(10u64),
        old.enable_key_mouse_monitor matches Some(v) ==> new.enable_key_mouse_monitor == Some(v),
        old.enable_key_mouse_monitor is None ==> new.enable_key_mouse_monitor == Some(true),
        old.key_mouse_monitor_sleep_timeout matches Some(v) ==> new.key_mouse_monitor_sleep_timeout == Some(v),
        old.key_mouse_monitor_sleep_timeout is None ==> new.key_mouse_monitor_sleep_timeout == Some(5000u64),
        old.enable_websocket matches Some(v) ==> new.enable_websocket == Some(v),
        old.enable_websocket is None ==> new.enable_websocket == Some(true),
        old.is_server matches Some(v) ==> new.is_server == Some(v),
        old.is_server is None ==> new.is_server == Some(true),
        old.websocket_server_addr matches Some(v) ==> opt_str_view(new.websocket_server_addr) == Some(v@),
        old.websocket_server_addr is None ==> opt_str_view(new.websocket_server_addr) == Some("0.0.0.0"@),
        old.websocket_server_port matches Some(v) ==> new.websocket_server_port == Some(v),
        old.websocket_server_port is None ==> new.websocket_server_port == Some(8113u16),
        opt_str_view(new.webdav_url) == opt_str_view(old.webdav_url),
        opt_str_view(new.username) == opt_str_view(old.username),
        opt_str_view(new.password) == opt_str_view(old.password),
        new.push_interval == old.push_interval,
        new.pull_interval == old.pull_interval,
        new.sync_interval == old.sync_interval,
        new.enable_push == old.enable_push,
        new.enable_pull == old.enable_pull,
        opt_str_view(new.connect_websocket_server_addr) == opt_str_view(old.connect_websocket_server_addr),
        new.connect_websocket_server_port == old.connect_websocket_server_port,
        opt_str_view(new.webserver_addr) == opt_str_view(old.webserver_addr),
        new.webserver_port == old.webserver_port,
        opt_str_view(new.peer_device_addr) == opt_str_view(old.peer_device_addr),
        new.peer_device_port == old.peer_device_port,
{
    reveal_strlit("未命名设备");
    reveal_strlit("0.0.0.0");
}

} // verus!
