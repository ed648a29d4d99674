//! Command-line arguments and the rules of the configuration wizard.

use vstd::prelude::*;
use crate::config::Config;
use crate::device::opt_str_view;
use crate::utils::{is_valid_ip, is_valid_port, valid_ip_spec, valid_port_spec};

verus! {

/// The command-line arguments.
#[derive(Debug, Clone)]
pub struct Args {
    pub interactive: bool,
    pub webdav_url: Option<String>,
    pub webdav_username: Option<String>,
    pub webdav_password: Option<String>,
    pub server: bool,
    pub server_ip: Option<String>,
    pub server_port: Option<u16>,
}

/// Whether the configuration wizard runs at start: when asked for on the
/// command line, and on the first start, when no configuration file exists yet.
pub fn should_run_wizard(interactive: bool, config_found: bool) -> (b: bool)
    ensures
        b == (interactive || !config_found),
{
    interactive || !config_found
}

/// The synchronisation methods the wizard offers, in menu order.
#[derive(Debug, Clone, Copy, PartialEq, Eq, Structural)]
pub enum SyncChoice {
    WebSocket,
    WebDav,
}

/// The method chosen by its menu index: the first entry is WebSocket, any
/// other is WebDAV.
pub fn sync_choice(index: usize) -> (c: SyncChoice)
    ensures
        c == if index == 0 { SyncChoice::WebSocket } else { SyncChoice::WebDav },
{
    if index == 0 { SyncChoice::WebSocket } else { SyncChoice::WebDav }
}

/// The answers the wizard proposes for the WebSocket set-up.
pub struct WizardDefaults {
    pub server_port: u16,
    pub connect_to_peer: bool,
    pub peer_ip: String,
    pub peer_port: u16,
}

/// The proposed answers: the configured values, else port 8113, connecting to
/// a peer, and an empty peer address.
pub fn wizard_defaults(config: &Config) -> (d: WizardDefaults)
    ensures
        d.server_port == match config.webserver_port { Some(p) => p, None => 8113u16 },
        d.connect_to_peer == match config.enable_websocket { Some(b) => b, None => true },
        d.peer_port == match config.peer_device_port { Some(p) => p, None => 8113u16 },
        d.peer_ip@ == match config.peer_device_addr { Some(a) => a@, None => Seq::empty() },
{
    proof { reveal_strlit(""); }
    WizardDefaults {
        server_port: match config.webserver_port { Some(p) => p, None => 8113 },
        connect_to_peer: match config.enable_websocket { Some(b) => b, None => true },
        peer_ip: match &config.peer_device_addr { Some(a) => a.clone(), None => String::from_str("") },
        peer_port: match config.peer_device_port { Some(p) => p, None => 8113 },
    }
}

/// Checks the local service port entered: 1024 or above.
pub fn check_server_port(port: u16) -> (r: Result<(), String>)
    ensures
        r is Ok <==> valid_port_spec(port),
        r matches Err(m) ==> m@ == "无效的端口, 请输入 1024 到 65535 之间的数字"@,
{
    if is_valid_port(port) {
        Ok(())
    } else {
        proof { reveal_strlit("无效的端口, 请输入 1024 到 65535 之间的数字"); }
        Err(String::from_str("无效的端口, 请输入 1024 到 65535 之间的数字"))
    }
}

/// Checks the peer address entered: a dotted quad.
pub fn check_peer_ip(ip: &String) -> (r: Result<(), String>)
    ensures
        r is Ok <==> valid_ip_spec(ip@),
        r matches Err(m) ==> m@ == "无效的 IP 地址"@,
{
    if is_valid_ip(ip.as_str()) {
        Ok(())
    } else {
        proof { reveal_strlit("无效的 IP 地址"); }
        Err(String::from_str("无效的 IP 地址"))
    }
}

/// Checks the peer port entered: 1024 or above.
pub fn check_peer_port(port: u16) -> (r: Result<(), String>)
    ensures
        r is Ok <==> valid_port_spec(port),
        r matches Err(m) ==> m@ == "无效的端口, 请查看对等设备的端口号"@,
{
    if is_valid_port(port) {
        Ok(())
    } else {
        proof { reveal_strlit("无效的端口, 请查看对等设备的端口号"); }
        Err(String::from_str("无效的端口, 请查看对等设备的端口号"))
    }
}

/// Whether the WebSocket answers are acceptable: a service port of 1024 or
/// above and, when a peer is given, a dotted-quad address and a port of 1024
/// or above.
pub open spec fn websocket_answers_valid(server_port: u16, peer: Option<(String, u16)>) -> bool {
    &&& valid_port_spec(server_port)
    &&& match peer {
        Some((ip, port)) => valid_ip_spec(ip@) && valid_port_spec(port),
        None => true,
    }
}

/// The message for the first unacceptable WebSocket answer, in the order the
/// wizard asks: service port, peer address, peer port.
pub open spec fn websocket_answer_error(server_port: u16, peer: Option<(String, u16)>) -> Seq<char> {
    if !valid_port_spec(server_port) {
        "无效的端口, 请输入 1024 到 65535 之间的数字"@
    } else {
        match peer {
            Some((ip, port)) => if !valid_ip_spec(ip@) { "无效的 IP 地址"@ } else { "无效的端口, 请查看对等设备的端口号"@ },
            None => Seq::empty(),
        }
    }
}

/// Records the WebSocket answers: the service port, and the peer when the
/// user chose to connect to one; nothing else changes. An unacceptable answer
/// is refused with its message and nothing is recorded.
pub fn apply_websocket_answers(config: &mut Config, server_port: u16, peer: Option<(String, u16)>) -> (r: Result<(), String>)
    ensures
        r is Ok <==> websocket_answers_valid(server_port, peer),
        r matches Err(m) ==> m@ == websocket_answer_error(server_port, peer) && *final(config) == *old(config),
        r is Ok ==> {
            &&& final(config).webserver_port == Some(server_port)
            &&& match peer {
                Some((ip, port)) => opt_str_view(final(config).peer_device_addr) == Some(ip@)
                    && final(config).peer_device_port == Some(port),
                None => opt_str_view(final(config).peer_device_addr) == opt_str_view(old(config).peer_device_addr)
                    && final(config).peer_device_port == old(config).peer_device_port,
            }
            &&& *final(config) == (Config {
                webserver_port: final(config).webserver_port,
                peer_device_addr: final(config).peer_device_addr,
                peer_device_port: final(config).peer_device_port,
                ..*old(config)
            })
        },
{
    match check_server_port(server_port) {
        Ok(()) => {},
        Err(m) => return Err(m),
    }
    match &peer {
        Some((ip, port)) => {
            match check_peer_ip(ip) {
                Ok(()) => {},
                Err(m) => return Err(m),
            }
            match check_peer_port(*port) {
                Ok(()) => {},
                Err(m) => return Err(m),
            }
        },
        None => {},
    }
    config.webserver_port = Some(server_port);
    match peer {
        Some((ip, port)) => {
            config.peer_device_addr = Some(ip);
            config.peer_device_port = Some(port);
        },
        None => {},
    }
    Ok(())
}

/// Records the WebDAV answers; nothing else changes.
pub fn apply_webdav_answers(config: &mut Config, url: String, username: String, password: String)
    ensures
        opt_str_view(final(config).webdav_url) == Some(url@),
        opt_str_view(final(config).username) == Some(username@),
        opt_str_view(final(config).password) == Some(password@),
        *final(config) == (Config {
            webdav_url: final(config).webdav_url,
            username: final(config).username,
            password: final(config).password,
            ..*old(config)
        }),
{
    config.webdav_url = Some(url);
    config.username = Some(username);
    config.password = Some(password);
}

} // verus!
