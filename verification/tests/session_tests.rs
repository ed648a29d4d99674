use uniclipboard::clipboard::{
    clipboard_write_for, payload_from_clipboard, payload_text_first, text_bytes, ClipboardError, ClipboardImage,
    ClipboardWrite,
};
use uniclipboard::device::{Device, DeviceStatus};
use uniclipboard::device_manager::DeviceManager;
use uniclipboard::message::{Payload, RegisterDeviceMessage, Timestamp};
use uniclipboard::response::download_page;
use uniclipboard::sync::{handle_register, initial_device_list, on_incoming_closed, AddressBook};
use uniclipboard::webdav::{RunStateError, SyncRunState};

fn at(secs: i64) -> Timestamp {
    Timestamp { secs, nanos: 0 }
}

#[test]
fn initial_list_names_only_this_device_as_sender() {
    let devices = vec![
        Device::new("a".to_string(), Some("10.0.0.1".to_string()), Some(1), Some(8113)),
        Device::new("b".to_string(), None, None, None),
    ];
    let m = initial_device_list(&devices, "me".to_string());
    assert_eq!(m.replay_device_ids, vec!["me".to_string()]);
    assert_eq!(m.devices.len(), 2);
    assert_eq!(m.devices[0].id, "a");
    assert_eq!(m.devices[0].ip, Some("10.0.0.1".to_string()));
    assert_eq!(m.devices[0].server_port, Some(8113));
    assert_eq!(m.devices[1].id, "b");
    assert_eq!(m.devices[1].ip, None);
}

#[test]
fn address_book_keeps_the_last_id_per_address() {
    let mut book = AddressBook::new();
    assert_eq!(book.get(&"1.1.1.1:5".to_string()), None);
    book.insert("1.1.1.1:5".to_string(), "a".to_string());
    book.insert("2.2.2.2:6".to_string(), "b".to_string());
    book.insert("1.1.1.1:5".to_string(), "c".to_string());
    assert_eq!(book.get(&"1.1.1.1:5".to_string()), Some("c".to_string()));
    assert_eq!(book.get(&"2.2.2.2:6".to_string()), Some("b".to_string()));
    assert_eq!(book.get(&"3.3.3.3:7".to_string()), None);
}

#[test]
fn registered_device_goes_offline_when_its_connection_closes() {
    let mut manager = DeviceManager::new();
    manager.add_at(Device::new("d".to_string(), None, None, Some(8113)), 1).unwrap();
    manager.set_offline("d").unwrap();
    let mut book = AddressBook::new();
    let reg = RegisterDeviceMessage::new("d".to_string(), None, Some(8113));
    handle_register(&mut manager, &mut book, &reg, "10.0.0.5", 40000);
    assert_eq!(book.get(&"10.0.0.5:40000".to_string()), Some("d".to_string()));
    assert_eq!(manager.get("d").unwrap().unwrap().status, DeviceStatus::Online);
    on_incoming_closed(&mut manager, &book, &"10.0.0.6:1".to_string());
    assert_eq!(manager.get("d").unwrap().unwrap().status, DeviceStatus::Online);
    on_incoming_closed(&mut manager, &book, &"10.0.0.5:40000".to_string());
    assert_eq!(manager.get("d").unwrap().unwrap().status, DeviceStatus::Offline);
}

#[test]
fn clipboard_image_has_priority_over_text() {
    let img = ClipboardImage { png: vec![137, 80, 78, 71], width: 3, height: 2 };
    let p = payload_from_clipboard(Some(img), Some("x".to_string()), "d".to_string(), at(4)).unwrap();
    let i = p.as_image().unwrap();
    assert_eq!(i.content, vec![137, 80, 78, 71]);
    assert_eq!(i.format, "png");
    assert_eq!(i.size, 4);
    assert_eq!((i.width, i.height), (3, 2));
    let t = payload_from_clipboard(None, Some("héllo".to_string()), "d".to_string(), at(4)).unwrap();
    assert!(!t.is_image());
    assert_eq!(t.get_content(), &"héllo".as_bytes().to_vec());
    assert_eq!(
        payload_from_clipboard(None, None, "d".to_string(), at(4)).err(),
        Some(ClipboardError::Empty)
    );
    assert_eq!(text_bytes(&"ab".to_string()), vec![97, 98]);
}

#[test]
fn clipboard_write_decodes_text() {
    let p = Payload::new_text("hé".as_bytes().to_vec(), "d".to_string(), at(0));
    match clipboard_write_for(p).unwrap() {
        ClipboardWrite::Text(s) => assert_eq!(s, "hé"),
        other => panic!("unexpected {:?}", other),
    }
    let bad = Payload::new_text(vec![0xff, 0xfe], "d".to_string(), at(0));
    assert_eq!(clipboard_write_for(bad).err(), Some(ClipboardError::InvalidUtf8));
    let img = Payload::new_image(vec![1, 2], "d".to_string(), at(0), 1, 1, "png".to_string(), 2);
    match clipboard_write_for(img).unwrap() {
        ClipboardWrite::Image(b) => assert_eq!(b, vec![1, 2]),
        other => panic!("unexpected {:?}", other),
    }
}

#[test]
fn run_state_refuses_second_start() {
    let mut s = SyncRunState::new();
    assert_eq!(s.start(), Ok(()));
    assert_eq!(s.start(), Err(RunStateError::AlreadyRunning));
    s.pause();
    assert!(s.paused && s.running);
    s.resume();
    s.stop();
    assert_eq!(s, SyncRunState::new());
    assert_eq!(s.start(), Ok(()));
}

#[test]
fn download_page_text() {
    assert_eq!(download_page("a.txt"), "Downloading file: a.txt");
}

#[test]
fn payload_descriptions() {
    let t = Payload::new_text(b"hello".to_vec(), "dev".to_string(), at(0));
    assert_eq!(
        t.to_display_string(),
        Some("文本消息 - 设备: dev, 时间: 1970-01-01 00:00:00 UTC, 内容长度: 5".to_string())
    );
    let i = Payload::new_image(vec![0; 10], "dev".to_string(), at(86400), 640, 480, "png".to_string(), 10);
    assert_eq!(
        i.to_display_string(),
        Some("图片消息 - 设备: dev, 时间: 1970-01-02 00:00:00 UTC, 尺寸: 640x480, 格式: png, 大小: 10".to_string())
    );
    assert_eq!(i.display_with_time("T"), "图片消息 - 设备: dev, 时间: T, 尺寸: 640x480, 格式: png, 大小: 10");
    let far = Payload::new_text(vec![], "dev".to_string(), at(i64::MAX));
    assert_eq!(far.to_display_string(), None);
}

#[test]
fn polling_reader_prefers_text() {
    let img = ClipboardImage { png: vec![1, 2, 3], width: 1, height: 1 };
    let p = payload_text_first(Some(img.clone()), Some("x".to_string()), "d".to_string(), at(1)).unwrap();
    assert!(!p.is_image());
    assert_eq!(p.get_content(), &vec![120]);
    let q = payload_text_first(Some(img), None, "d".to_string(), at(1)).unwrap();
    assert!(q.is_image());
    assert_eq!(q.as_image().unwrap().size, 3);
    assert_eq!(
        payload_text_first(None, None, "d".to_string(), at(1)).err(),
        Some(ClipboardError::Empty)
    );
}

#[test]
fn clipboard_text_round_trip() {
    let text = "héllo 🎉 剪贴板".to_string();
    let p = payload_from_clipboard(None, Some(text.clone()), "d".to_string(), at(3)).unwrap();
    match clipboard_write_for(p).unwrap() {
        ClipboardWrite::Text(s) => assert_eq!(s, text),
        other => panic!("unexpected {:?}", other),
    }
}
