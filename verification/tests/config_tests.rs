use uniclipboard::cli::{
    apply_webdav_answers, apply_websocket_answers, check_peer_ip, check_peer_port,
    check_server_port, should_run_wizard, sync_choice, wizard_defaults, SyncChoice,
};
use uniclipboard::config::{resolve_config_location, Config, ConfigError, ConfigLocation};
use uniclipboard::context::AppContextBuilder;

#[test]
fn default_config_values() {
    let c = Config::default();
    assert_eq!(c.device_id.len(), 6);
    assert_eq!(c.device_name, Some("未命名设备".to_string()));
    assert_eq!(c.max_history_size, Some(10));
    assert_eq!(c.push_interval, Some(500));
    assert_eq!(c.key_mouse_monitor_sleep_timeout, Some(5000));
    assert_eq!(c.websocket_server_addr, Some("0.0.0.0".to_string()));
    assert_eq!(c.websocket_server_port, Some(8113));
    assert_eq!(c.enable_webdav, Some(false));
    assert_eq!(c.connect_websocket_server_addr, None);
    assert_eq!(c.webserver_addr, Some("0.0.0.0".to_string()));
    assert_eq!(c.webserver_port, Some(8113));
    assert_eq!(c.peer_device_addr, None);
    assert!(c.check_savable().is_ok());
}

fn empty_config() -> Config {
    let mut c = Config::default();
    c.device_id = "123456".to_string();
    c.device_name = None;
    c.enable_webdav = None;
    c.max_history_size = None;
    c.push_interval = None;
    c.enable_key_mouse_monitor = None;
    c.key_mouse_monitor_sleep_timeout = None;
    c.enable_websocket = None;
    c.is_server = None;
    c.websocket_server_addr = None;
    c.websocket_server_port = None;
    c
}

#[test]
fn merge_with_default_fills_missing_settings() {
    let mut c = empty_config();
    c.enable_websocket = Some(false);
    c.merge_with_default();
    assert_eq!(c.device_id, "123456");
    assert_eq!(c.device_name, Some("未命名设备".to_string()));
    assert_eq!(c.enable_webdav, Some(false));
    assert_eq!(c.max_history_size, Some(10));
    assert_eq!(c.enable_key_mouse_monitor, Some(true));
    assert_eq!(c.key_mouse_monitor_sleep_timeout, Some(5000));
    assert_eq!(c.enable_websocket, Some(false));
    assert_eq!(c.is_server, Some(true));
    assert_eq!(c.websocket_server_addr, Some("0.0.0.0".to_string()));
    assert_eq!(c.websocket_server_port, Some(8113));
    // settings merge_with_default does not fill stay missing
    assert_eq!(c.push_interval, None);
    assert_eq!(c.get_device_id(), "123456");
}

#[test]
fn max_history_must_exceed_one() {
    let mut c = Config::default();
    c.max_history_size = Some(1);
    assert_eq!(c.check_savable(), Err(ConfigError::MaxHistoryTooSmall));
    c.max_history_size = None;
    assert_eq!(c.check_savable(), Err(ConfigError::MaxHistoryTooSmall));
    c.max_history_size = Some(2);
    assert_eq!(c.check_savable(), Ok(()));
}

#[test]
fn config_location_rules() {
    assert_eq!(
        resolve_config_location(Some("/tmp/uniclipboard".to_string()), Some("/home/u/.config".to_string())),
        Ok(ConfigLocation::Explicit("/tmp/uniclipboard".to_string()))
    );
    assert_eq!(
        resolve_config_location(None, Some("/home/u/.config".to_string())),
        Ok(ConfigLocation::InConfigDir("/home/u/.config".to_string()))
    );
    assert_eq!(resolve_config_location(None, None), Err(ConfigError::NoConfigDirectory));
}

#[test]
fn wizard_rules() {
    assert_eq!(sync_choice(0), SyncChoice::WebSocket);
    assert_eq!(sync_choice(1), SyncChoice::WebDav);
    let mut c = Config::default();
    let d = wizard_defaults(&c);
    assert_eq!(d.server_port, 8113);
    assert!(d.connect_to_peer);
    assert_eq!(d.peer_ip, "");
    assert_eq!(d.peer_port, 8113);
    assert!(check_server_port(1023).is_err());
    assert_eq!(check_server_port(80).unwrap_err(), "无效的端口, 请输入 1024 到 65535 之间的数字");
    assert!(check_server_port(8113).is_ok());
    assert_eq!(check_peer_ip(&"1.2.3".to_string()).unwrap_err(), "无效的 IP 地址");
    assert!(check_peer_ip(&"1.2.3.4".to_string()).is_ok());
    assert_eq!(check_peer_port(10).unwrap_err(), "无效的端口, 请查看对等设备的端口号");
    apply_websocket_answers(&mut c, 9000, Some(("10.0.0.2".to_string(), 9001))).unwrap();
    assert_eq!(c.webserver_port, Some(9000));
    assert_eq!(c.peer_device_addr, Some("10.0.0.2".to_string()));
    assert_eq!(c.peer_device_port, Some(9001));
    let d = wizard_defaults(&c);
    assert_eq!(d.peer_ip, "10.0.0.2");
    apply_websocket_answers(&mut c, 9100, None).unwrap();
    assert_eq!(c.webserver_port, Some(9100));
    assert_eq!(c.peer_device_port, Some(9001));
    apply_webdav_answers(&mut c, "https://dav".to_string(), "u".to_string(), "p".to_string());
    assert_eq!(c.webdav_url, Some("https://dav".to_string()));
    assert_eq!(c.username, Some("u".to_string()));
    assert_eq!(c.password, Some("p".to_string()));
    let builder = AppContextBuilder::new(c);
    assert_eq!(builder.config().webserver_port, Some(9100));
}

#[test]
fn test_get_config_path_with_env() {
    let config_dir = dirs::config_dir().map(|p| p.to_string_lossy().into_owned());
    let location = resolve_config_location(Some("/tmp/uniclipboard".to_string()), config_dir);
    assert_eq!(location, Ok(ConfigLocation::Explicit("/tmp/uniclipboard".to_string())));
}

#[test]
fn test_get_config_path_without_env() {
    let config_dir = dirs::config_dir().map(|p| p.to_string_lossy().into_owned());
    let location = resolve_config_location(None, config_dir.clone());
    match config_dir {
        Some(dir) => assert_eq!(location, Ok(ConfigLocation::InConfigDir(dir))),
        None => assert_eq!(location, Err(ConfigError::NoConfigDirectory)),
    }
}

#[test]
fn wizard_runs_on_first_start_or_when_asked() {
    assert!(should_run_wizard(false, false));
    assert!(should_run_wizard(true, true));
    assert!(should_run_wizard(true, false));
    assert!(!should_run_wizard(false, true));
}

#[test]
fn invalid_websocket_answers_are_refused_and_not_recorded() {
    let mut c = Config::default();
    let before = (c.webserver_port, c.peer_device_addr.clone(), c.peer_device_port);
    assert_eq!(
        apply_websocket_answers(&mut c, 80, Some(("10.0.0.2".to_string(), 9001))),
        Err("无效的端口, 请输入 1024 到 65535 之间的数字".to_string())
    );
    assert_eq!(
        apply_websocket_answers(&mut c, 9000, Some(("10.0.0".to_string(), 9001))),
        Err("无效的 IP 地址".to_string())
    );
    assert_eq!(
        apply_websocket_answers(&mut c, 9000, Some(("10.0.0.2".to_string(), 22))),
        Err("无效的端口, 请查看对等设备的端口号".to_string())
    );
    assert_eq!((c.webserver_port, c.peer_device_addr.clone(), c.peer_device_port), before);
}
