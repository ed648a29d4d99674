use chrono::Utc;
use uniclipboard::device::{DbDevice, Device, DeviceStatus};
use uniclipboard::device_manager::DeviceManager;

#[test]
fn test_device_manager() {
    let mut manager = DeviceManager::new();
    let device = Device::new("test".to_string(), None, None, None);
    manager.add(device.clone()).unwrap();
    assert_eq!(manager.get("test").unwrap(), Some(device));
    assert_eq!(manager.get("test1").unwrap(), None);
    let device = manager.get("test").unwrap().unwrap();
    assert_ne!(device.updated_at, None);
}

#[test]
fn test_device_eq() {
    let device1 = Device::new("test".to_string(), None, None, None);
    let device2 = Device::new("test".to_string(), None, None, None);
    assert_eq!(device1, device2);
}

#[test]
fn devices_with_same_id_are_equal() {
    let device1 = Device::new("a".to_string(), Some("1.1.1.1".to_string()), Some(1), None);
    let device2 = Device::new("a".to_string(), None, None, Some(2));
    let device3 = Device::new("b".to_string(), Some("1.1.1.1".to_string()), Some(1), None);
    assert_eq!(device1, device2);
    assert_ne!(device1, device3);
}

#[test]
fn test_device_manager_has() {
    let mut manager = DeviceManager::new();
    let device = Device::new("test".to_string(), None, None, None);
    manager.add(device.clone()).unwrap();
    assert_eq!(manager.has("test").unwrap(), true);
    assert_eq!(manager.has("test1").unwrap(), false);
}

#[test]
fn test_merge() {
    let mut manager = DeviceManager::new();
    let devices = vec![
        Device::new("test".to_string(), None, None, None),
        Device::new("test1".to_string(), None, None, None),
    ];
    manager.merge(&devices).unwrap();
    let devices_from_db = manager.get_all_devices().unwrap();
    assert_eq!(devices_from_db.len(), 2);
    for d in devices_from_db {
        assert_ne!(d.updated_at, None);
    }

    let mut device = Device::new(
        "test".to_string(),
        Some("127.0.0.1".to_string()),
        Some(12345),
        None,
    );
    let ts = Utc::now().timestamp() as i32;
    device.updated_at = Some(ts);
    let devices = vec![device];
    manager.merge(&devices).unwrap();
    let device = manager.get("test").unwrap().unwrap();
    assert_eq!(device.ip, Some("127.0.0.1".to_string()));
    assert_eq!(device.port, Some(12345));
    assert_eq!(device.updated_at, Some(ts));
}

#[test]
fn merge_returns_only_new_devices() {
    let mut manager = DeviceManager::new();
    let first = manager
        .merge(&vec![Device::new("a".to_string(), None, None, None)])
        .unwrap();
    assert_eq!(first.len(), 1);
    assert_eq!(first[0].id, "a");
    assert_eq!(first[0].updated_at, Some(0));
    let second = manager
        .merge(&vec![
            Device::new("a".to_string(), None, None, None),
            Device::new("b".to_string(), None, None, None),
        ])
        .unwrap();
    assert_eq!(second.len(), 1);
    assert_eq!(second[0].id, "b");
    // merging the same list again adds nothing
    let third = manager
        .merge(&vec![
            Device::new("a".to_string(), None, None, None),
            Device::new("b".to_string(), None, None, None),
        ])
        .unwrap();
    assert_eq!(third.len(), 0);
    assert_eq!(manager.get_all_devices().unwrap().len(), 2);
}

#[test]
fn merge_refuses_repeated_new_ids() {
    let mut manager = DeviceManager::new();
    let result = manager.merge(&vec![
        Device::new("a".to_string(), None, None, None),
        Device::new("a".to_string(), None, None, None),
    ]);
    assert!(result.is_err());
    assert_eq!(manager.get_all_devices().unwrap().len(), 0);
}

#[test]
fn merge_keeps_newer_stored_record() {
    let mut manager = DeviceManager::new();
    let mut d = Device::new("a".to_string(), Some("10.0.0.1".to_string()), None, Some(8113));
    d.updated_at = Some(100);
    manager.merge(&vec![d]).unwrap();
    // older record with another ip: ignored
    let mut older = Device::new("a".to_string(), Some("10.0.0.2".to_string()), None, Some(8113));
    older.updated_at = Some(50);
    manager.merge(&vec![older]).unwrap();
    assert_eq!(manager.get("a").unwrap().unwrap().ip, Some("10.0.0.1".to_string()));
    // a record exactly as old: ignored
    let mut equal = Device::new("a".to_string(), Some("10.0.0.3".to_string()), None, Some(8113));
    equal.updated_at = Some(100);
    manager.merge(&vec![equal]).unwrap();
    assert_eq!(manager.get("a").unwrap().unwrap().ip, Some("10.0.0.1".to_string()));
    // newer record with the same address: taken
    let mut same = Device::new("a".to_string(), Some("10.0.0.1".to_string()), None, Some(8113));
    same.updated_at = Some(200);
    same.status = DeviceStatus::Online;
    manager.merge(&vec![same]).unwrap();
    let stored = manager.get("a").unwrap().unwrap();
    assert_eq!(stored.updated_at, Some(200));
    assert_eq!(stored.status, DeviceStatus::Online);
    // newer record with another service port: taken
    let mut moved = Device::new("a".to_string(), Some("10.0.0.1".to_string()), None, Some(9000));
    moved.updated_at = Some(300);
    manager.merge(&vec![moved]).unwrap();
    let stored = manager.get("a").unwrap().unwrap();
    assert_eq!(stored.server_port, Some(9000));
    assert_eq!(stored.updated_at, Some(300));
}

#[test]
fn test_set_self_device() {
    let mut manager = DeviceManager::new();
    let mut device = Device::new("test".to_string(), None, None, None);
    manager.add(device.clone()).unwrap();
    device.server_port = Some(12345);
    device.status = DeviceStatus::Online;
    manager.set_self_device(&device).unwrap();
    match manager.get("test") {
        Ok(Some(d)) => {
            assert_eq!(d.self_device, true, "Self device flag not set correctly");
        }
        Ok(None) => panic!("Device not found after setting"),
        Err(e) => panic!("Failed to get device: {:?}", e),
    }
}

#[test]
fn set_self_device_of_unknown_device_fails() {
    let mut manager = DeviceManager::new();
    let device = Device::new("ghost".to_string(), None, None, None);
    assert!(manager.set_self_device(&device).is_err());
    assert_eq!(manager.get_all_devices().unwrap().len(), 0);
}

#[test]
fn test_remove() {
    let mut manager = DeviceManager::new();
    let device = Device::new("test".to_string(), None, None, None);
    manager.add(device.clone()).unwrap();
    manager.remove("test").unwrap();
    assert_eq!(manager.get("test").unwrap(), None);
}

#[test]
fn test_get() {
    let mut manager = DeviceManager::new();
    let device = Device::new("test".to_string(), None, None, None);
    manager.add(device.clone()).unwrap();
    assert_eq!(manager.get("test").unwrap(), Some(device));
}

#[test]
fn test_get_all_devices() {
    let mut manager = DeviceManager::new();
    let device = Device::new("test".to_string(), None, None, None);
    manager.add(device.clone()).unwrap();
    assert_eq!(manager.get_all_devices().unwrap().len(), 1);
}

#[test]
fn test_get_all_devices_except_self() {
    let mut manager = DeviceManager::new();
    let device = Device::new("test".to_string(), None, None, None);
    manager.add(device.clone()).unwrap();
    manager.set_self_device(&device).unwrap();

    let devices = manager.get_all_devices_except_self().unwrap();
    assert_eq!(devices.len(), 0);
}

#[test]
fn test_get_device_by_ip_and_port() {
    let mut manager = DeviceManager::new();
    let device = Device::new("test".to_string(), None, None, None);
    manager.add(device.clone()).unwrap();
    assert_eq!(
        manager
            .get_device_by_ip_and_port("127.0.0.1", 12345)
            .unwrap(),
        None
    );

    let device = Device::new(
        "test1".to_string(),
        Some("127.0.0.1".to_string()),
        Some(12346),
        None,
    );
    manager.add(device.clone()).unwrap();
    assert_eq!(
        manager
            .get_device_by_ip_and_port("127.0.0.1", 12346)
            .unwrap(),
        Some(device)
    );
}

#[test]
fn add_overwrites_and_stamps_time() {
    let mut manager = DeviceManager::new();
    manager
        .add_at(Device::new("a".to_string(), Some("1.1.1.1".to_string()), None, None), 1000)
        .unwrap();
    manager
        .add_at(Device::new("a".to_string(), Some("2.2.2.2".to_string()), None, None), 2000)
        .unwrap();
    let all = manager.get_all_devices().unwrap();
    assert_eq!(all.len(), 1);
    assert_eq!(all[0].ip, Some("2.2.2.2".to_string()));
    assert_eq!(all[0].updated_at, Some(2000));
}

#[test]
fn online_offline_and_offline_list() {
    let mut manager = DeviceManager::new();
    manager.add_at(Device::new("a".to_string(), None, None, None), 1).unwrap();
    manager.add_at(Device::new("b".to_string(), None, None, None), 1).unwrap();
    manager.set_offline("a").unwrap();
    manager.set_online("b").unwrap();
    manager.set_offline("missing").unwrap();
    let offline = manager.get_offline_devices().unwrap();
    assert_eq!(offline.len(), 1);
    assert_eq!(offline[0].id, "a");
    assert_eq!(manager.get("b").unwrap().unwrap().status, DeviceStatus::Online);
    manager.clear().unwrap();
    assert_eq!(manager.get_all_devices().unwrap().len(), 0);
}

#[test]
fn device_row_conversion() {
    let mut d = Device::new("x".to_string(), Some("h".to_string()), Some(80), Some(8113));
    d.status = DeviceStatus::Offline;
    let row = DbDevice::from_device(&d);
    assert_eq!(row.port, Some(80));
    assert_eq!(row.status, 1);
    assert_eq!(row.updated_at, 0);
    let back = Device::from_db(&row);
    assert_eq!(back.port, Some(80));
    assert_eq!(back.server_port, Some(8113));
    assert_eq!(back.status, DeviceStatus::Offline);
    assert_eq!(back.updated_at, Some(0));
    let mut odd = row.clone();
    odd.status = 7;
    assert_eq!(Device::from_db(&odd).status, DeviceStatus::Unknown);
}

#[test]
fn status_codes() {
    assert_eq!(DeviceStatus::Online.to_i32(), 0);
    assert_eq!(DeviceStatus::Offline.to_i32(), 1);
    assert_eq!(DeviceStatus::Unknown.to_i32(), 2);
    assert_eq!(DeviceStatus::try_from_i32(1), Some(DeviceStatus::Offline));
    assert_eq!(DeviceStatus::try_from_i32(3), None);
    assert_eq!(DeviceStatus::try_from_i32(-1), None);
    assert!(DeviceStatus::Online < DeviceStatus::Unknown);
    assert!(DeviceStatus::Online.less_than(DeviceStatus::Offline));
}

#[test]
fn device_display_text() {
    let d = Device::new("dev".to_string(), Some("10.1.2.3".to_string()), Some(4567), None);
    assert_eq!(
        d.to_display_string(),
        "Device(id: dev, ip: 10.1.2.3, port: 4567, server_port: 0)"
    );
    let e = Device::new("e".to_string(), None, None, Some(8113));
    assert_eq!(e.to_display_string(), "Device(id: e, ip: , port: 0, server_port: 8113)");
}
