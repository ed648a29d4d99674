use uniclipboard::device::{Device, DeviceStatus};
use uniclipboard::device_manager::DeviceManager;
use uniclipboard::message::{
    ClipboardSyncMessage, DeviceSyncInfo, DevicesSyncMessage, Payload, RegisterDeviceMessage,
    Timestamp, WebSocketMessage,
};
use uniclipboard::sync::{
    after_ping, after_send_failure, device_ws_uri, dispatch, handle_device_list_sync,
    health_check_step, ip_port, is_configured_peer, is_connected, is_handshake, peer_uri,
    plan_start, pong_matches, registration, select_recipients, HealthAction, IncomingAction,
    MessageSource, SendRetry, StartPlan, SyncError,
};

fn info(id: &str, ip: &str, port: u16, updated_at: i32) -> DeviceSyncInfo {
    DeviceSyncInfo {
        id: id.to_string(),
        ip: Some(ip.to_string()),
        server_port: Some(port),
        status: DeviceStatus::Online,
        updated_at: Some(updated_at),
    }
}

#[test]
fn device_list_is_merged_and_forwarded() {
    let mut manager = DeviceManager::new();
    manager.add_at(Device::new("me".to_string(), None, None, Some(8113)), 5).unwrap();
    let msg = DevicesSyncMessage::new(
        vec![info("a", "10.0.0.1", 8113, 7), info("b", "10.0.0.2", 8114, 8)],
        vec!["a".to_string()],
    );
    let out = handle_device_list_sync(&mut manager, msg, &"me".to_string());
    assert_eq!(out.added.len(), 2);
    assert_eq!(out.added[0].id, "a");
    assert_eq!(out.added[0].port, Some(8113));
    assert_eq!(out.added[0].server_port, Some(8113));
    let (forward, excludes) = out.forward.unwrap();
    assert_eq!(excludes, vec!["a".to_string(), "me".to_string()]);
    assert_eq!(forward.replay_device_ids, excludes);
    let ids: Vec<String> = forward.devices.iter().map(|d| d.id.clone()).collect();
    assert_eq!(ids, vec!["me".to_string(), "a".to_string(), "b".to_string()]);
    assert_eq!(forward.devices[1].status, DeviceStatus::Online);
}

#[test]
fn device_list_already_passed_on_is_not_forwarded() {
    let mut manager = DeviceManager::new();
    let msg = DevicesSyncMessage::new(vec![info("a", "10.0.0.1", 8113, 7)], vec!["me".to_string()]);
    let out = handle_device_list_sync(&mut manager, msg, &"me".to_string());
    assert!(out.forward.is_none());
    assert_eq!(out.added.len(), 1);
    assert_eq!(manager.get_all_devices().unwrap().len(), 1);
}

#[test]
fn start_plan_choices() {
    let d = Device::new("a".to_string(), Some("1.1.1.1".to_string()), None, Some(8113));
    match plan_start(vec![d], Some("2.2.2.2".to_string()), Some(1)) {
        StartPlan::ConnectDevices(v) => assert_eq!(v.len(), 1),
        other => panic!("unexpected {:?}", other),
    }
    match plan_start(vec![], Some("2.2.2.2".to_string()), Some(9000)) {
        StartPlan::ConnectPeer(a, p) => {
            assert_eq!(a, "2.2.2.2");
            assert_eq!(p, 9000);
        }
        other => panic!("unexpected {:?}", other),
    }
    assert!(matches!(plan_start(vec![], Some("2.2.2.2".to_string()), None), StartPlan::NothingToConnect));
    assert!(matches!(plan_start(vec![], None, Some(9)), StartPlan::NothingToConnect));
}

#[test]
fn addresses() {
    assert_eq!(ip_port("192.168.0.2", 51000), "192.168.0.2:51000");
    assert_eq!(peer_uri("10.0.0.1", 8113), Ok("ws://10.0.0.1:8113/ws".to_string()));
    assert_eq!(peer_uri("", 8113), Err(SyncError::PeerNotSet));
    assert_eq!(peer_uri("10.0.0.1", 0), Err(SyncError::PeerNotSet));
    let d = Device::new("a".to_string(), Some("1.2.3.4".to_string()), Some(1), Some(8114));
    assert_eq!(device_ws_uri(&d), "ws://1.2.3.4:8114/ws");
}

#[test]
fn connection_lookup() {
    let d = Device::new("dev".to_string(), Some("10.0.0.9".to_string()), Some(40000), None);
    assert!(is_connected(&d, &vec!["dev".to_string()], &vec![]));
    assert!(is_connected(&d, &vec![], &vec!["10.0.0.9:40000".to_string()]));
    assert!(!is_connected(&d, &vec!["x".to_string()], &vec!["10.0.0.9:40001".to_string()]));
    let bare = Device::new("bare".to_string(), None, None, None);
    assert!(is_connected(&bare, &vec![], &vec![":0".to_string()]));
}

#[test]
fn broadcast_recipients() {
    let ids = vec!["a".to_string(), "b".to_string(), "c".to_string()];
    assert_eq!(select_recipients(&ids, &None), ids);
    assert_eq!(
        select_recipients(&ids, &Some(vec!["b".to_string(), "z".to_string()])),
        vec!["a".to_string(), "c".to_string()]
    );
    assert!(select_recipients(&ids, &Some(ids.clone())).is_empty());
}

#[test]
fn message_routing() {
    assert!(is_handshake("connect"));
    assert!(!is_handshake("Connect"));
    let reg = RegisterDeviceMessage::new("d".to_string(), None, Some(8113));
    match dispatch(WebSocketMessage::Register(reg.clone()), MessageSource::IpPort("1.1.1.1".to_string(), 5)) {
        IncomingAction::Register(m, ip, port) => {
            assert_eq!(m.id, "d");
            assert_eq!(ip, "1.1.1.1");
            assert_eq!(port, 5);
        }
        other => panic!("unexpected {:?}", other),
    }
    assert!(matches!(
        dispatch(WebSocketMessage::Register(reg), MessageSource::DeviceId("x".to_string())),
        IncomingAction::RegisterRejected
    ));
    let p = Payload::new_text(b"hi".to_vec(), "d".to_string(), Timestamp { secs: 0, nanos: 0 });
    assert!(matches!(
        dispatch(WebSocketMessage::ClipboardSync(ClipboardSyncMessage::from_payload(p)), MessageSource::DeviceId("x".to_string())),
        IncomingAction::ClipboardSync(_)
    ));
    match dispatch(WebSocketMessage::Unregister("gone".to_string()), MessageSource::DeviceId("x".to_string())) {
        IncomingAction::Unregister(id) => assert_eq!(id, "gone"),
        other => panic!("unexpected {:?}", other),
    }
}

#[test]
fn registration_message() {
    let m = registration(None, "123456".to_string(), Some(8113));
    assert_eq!(m.id, "123456");
    assert_eq!(m.ip, None);
    assert_eq!(m.server_port, Some(8113));
    let d = Device::new("x".to_string(), Some("1.1.1.1".to_string()), None, Some(1));
    let m = registration(Some(d), "123456".to_string(), Some(8113));
    assert_eq!(m.id, "x");
    assert_eq!(m.ip, Some("1.1.1.1".to_string()));
    assert_eq!(m.server_port, Some(1));
}

#[test]
fn configured_peer_is_recognised() {
    let d = Device::new("x".to_string(), Some("10.0.0.1".to_string()), Some(8113), None);
    assert!(is_configured_peer(&d, "10.0.0.1", 8113));
    assert!(!is_configured_peer(&d, "10.0.0.1", 8114));
    assert!(!is_configured_peer(&d, "10.0.0.2", 8113));
}

#[test]
fn health_check_gives_up_after_three_failed_pings() {
    let mut failed = 0u32;
    let mut actions = Vec::new();
    for answered in [true, false, true, false, false, true] {
        let a = health_check_step(true, failed);
        actions.push(a);
        if a != HealthAction::Ping {
            break;
        }
        failed = after_ping(failed, !answered);
    }
    assert_eq!(failed, 3);
    assert_eq!(actions.last(), Some(&HealthAction::GiveUp));
    assert_eq!(actions.len(), 6);
    assert_eq!(health_check_step(false, 0), HealthAction::Stop);
}

#[test]
fn pong_payload_must_match() {
    assert!(pong_matches(&vec![1, 2, 3], &vec![1, 2, 3]));
    assert!(!pong_matches(&vec![1, 2, 3], &vec![1, 2]));
    assert!(!pong_matches(&vec![1, 2, 3], &vec![1, 2, 4]));
}

#[test]
fn send_retry_on_io_errors_only() {
    assert_eq!(after_send_failure("IO error: Broken pipe (os error 32)"), SendRetry::Reconnect);
    assert_eq!(after_send_failure("WebSocket protocol error"), SendRetry::Fail);
    assert_eq!(after_send_failure("io"), SendRetry::Fail);
}
