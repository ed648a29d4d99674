//! Clipboard payloads and the messages nodes exchange.

use vstd::prelude::*;
use crate::device::{Device, DeviceModel, DeviceStatus, clone_opt_string, opt_str_view};
use crate::digest::{hex_encode, hex_lower, law_hex_injective, lemma_hex_len, sha256, sha256_spec};
use crate::text::{decimal, push_decimal};

verus! {

/// A point in time: whole seconds since the Unix epoch and the nanoseconds past them.
#[derive(Debug, Clone, Copy, PartialEq, Eq, Structural)]
pub struct Timestamp {
    pub secs: i64,
    pub nanos: u32,
}

/// Text copied on a device.
#[derive(Debug, Clone)]
pub struct TextPayload {
    pub content: Vec<u8>,
    pub device_id: String,
    pub timestamp: Timestamp,
}

/// An image copied on a device, as encoded image bytes.
#[derive(Debug, Clone)]
pub struct ImagePayload {
    pub content: Vec<u8>,
    pub device_id: String,
    pub timestamp: Timestamp,
    pub width: usize,
    pub height: usize,
    pub format: String,
    pub size: usize,
}

/// The text chrono gives a UTC time: `chrono::DateTime::<Utc>::from_timestamp`
/// on the seconds and nanoseconds, then its `Display` text (such as
/// `2024-01-02 03:04:05 UTC`); `None` where chrono refuses the pair.
pub uninterp spec fn utc_display(secs: i64, nanos: u32) -> Option<Seq<char>>;

/// Calls `chrono::DateTime::<Utc>::from_timestamp` and formats the result with
/// its `Display` impl. The contract only names the outcome: which pairs chrono
/// accepts and the text it writes are left to chrono.
#[verifier::external_body]
fn utc_text(secs: i64, nanos: u32) -> (r: Option<String>)
    ensures
        opt_str_view(r) == utc_display(secs, nanos),
{
    match chrono::DateTime::<chrono::Utc>::from_timestamp(secs, nanos) {
        Some(dt) => Some(dt.to_string()),
        None => None,
    }
}

/// The one-line description of a payload, given the text of its time.
pub open spec fn payload_display(p: Payload, time: Seq<char>) -> Seq<char> {
    match p {
        Payload::Text(t) => "文本消息 - 设备: "@ + t.device_id@ + ", 时间: "@ + time
            + ", 内容长度: "@ + decimal(t.content@.len()),
        Payload::Image(i) => "图片消息 - 设备: "@ + i.device_id@ + ", 时间: "@ + time
            + ", 尺寸: "@ + decimal(i.width as nat) + "x"@ + decimal(i.height as nat)
            + ", 格式: "@ + i.format@ + ", 大小: "@ + decimal(i.size as nat),
    }
}

/// A clipboard content.
#[derive(Debug, Clone)]
pub enum Payload {
    Text(TextPayload),
    Image(ImagePayload),
}

impl TextPayload {
    /// The text, for content that is valid UTF-8.
    pub fn text(&self) -> (s: String)
        requires
            vstd::utf8::valid_utf8(self.content@),
        ensures
            s@ == vstd::utf8::decode_utf8(self.content@),
    {
        match utf8_decode(self.content.as_slice()) {
            Some(s) => s,
            None => String::new(),
        }
    }
}

/// `std::str::from_utf8` followed by an owned copy: the documentation of
/// `from_utf8` says it fails exactly on bytes that are not valid UTF-8; the
/// contract states the decoded text with vstd's UTF-8 specification.
#[verifier::external_body]
pub(crate) fn utf8_decode(bytes: &[u8]) -> (r: Option<String>)
    ensures
        r is Some <==> vstd::utf8::valid_utf8(bytes@),
        r matches Some(s) ==> s@ == vstd::utf8::decode_utf8(bytes@),
{
    std::str::from_utf8(bytes).ok().map(|s| s.to_string())
}

/// The bytes of a payload's content.
pub open spec fn content_of(p: Payload) -> Seq<u8> {
    match p {
        Payload::Text(t) => t.content@,
        Payload::Image(i) => i.content@,
    }
}

/// The device a payload comes from.
pub open spec fn device_of(p: Payload) -> Seq<char> {
    match p {
        Payload::Text(t) => t.device_id@,
        Payload::Image(i) => i.device_id@,
    }
}

/// When a payload was taken.
pub open spec fn timestamp_of(p: Payload) -> Timestamp {
    match p {
        Payload::Text(t) => t.timestamp,
        Payload::Image(i) => i.timestamp,
    }
}

/// The hash text of a payload: lowercase hex of the SHA-256 digest of its content.
pub open spec fn hash_of(p: Payload) -> Seq<char> {
    hex_lower(sha256_spec(content_of(p)))
}

impl Payload {
    /// A text payload.
    pub fn new_text(content: Vec<u8>, device_id: String, timestamp: Timestamp) -> (p: Self)
        ensures
            p matches Payload::Text(t) && t.content@ == content@ && t.device_id@ == device_id@
                && t.timestamp == timestamp,
    {
        Payload::Text(TextPayload { content, device_id, timestamp })
    }

    /// An image payload.
    pub fn new_image(
        content: Vec<u8>,
        device_id: String,
        timestamp: Timestamp,
        width: usize,
        height: usize,
        format: String,
        size: usize,
    ) -> (p: Self)
        ensures
            p matches Payload::Image(i) && i.content@ == content@ && i.device_id@ == device_id@
                && i.timestamp == timestamp && i.width == width && i.height == height
                && i.format@ == format@ && i.size == size,
    {
        Payload::Image(ImagePayload { content, device_id, timestamp, width, height, format, size })
    }

    /// The content bytes.
    pub fn get_content(&self) -> (c: &Vec<u8>)
        ensures
            c@ == content_of(*self),
    {
        match self {
            Payload::Text(p) => &p.content,
            Payload::Image(p) => &p.content,
        }
    }

    /// The id of the device the payload comes from.
    pub fn get_device_id(&self) -> (id: &str)
        ensures
            id@ == device_of(*self),
    {
        match self {
            Payload::Text(p) => p.device_id.as_str(),
            Payload::Image(p) => p.device_id.as_str(),
        }
    }

    /// When the payload was taken.
    pub fn get_timestamp(&self) -> (t: Timestamp)
        ensures
            t == timestamp_of(*self),
    {
        match self {
            Payload::Text(p) => p.timestamp,
            Payload::Image(p) => p.timestamp,
        }
    }

    /// Whether the payload is an image.
    pub fn is_image(&self) -> (b: bool)
        ensures
            b == (*self is Image),
    {
        match self {
            Payload::Image(_) => true,
            Payload::Text(_) => false,
        }
    }

    /// The image, for an image payload.
    pub fn as_image(&self) -> (r: Option<&ImagePayload>)
        ensures
            match *self {
                Payload::Image(i) => r == Some(&i),
                Payload::Text(_) => r is None,
            },
    {
        match self {
            Payload::Image(image) => Some(image),
            Payload::Text(_) => None,
        }
    }

    /// The description of the payload with `time` as the text of its time:
    /// kind, device, time, then the content length for text, or the size,
    /// format and byte count for an image.
    pub fn display_with_time(&self, time: &str) -> (s: String)
        ensures
            s@ == payload_display(*self, time@),
    {
        proof {
            reveal_strlit("文本消息 - 设备: ");
            reveal_strlit("图片消息 - 设备: ");
            reveal_strlit(", 时间: ");
            reveal_strlit(", 内容长度: ");
            reveal_strlit(", 尺寸: ");
            reveal_strlit("x");
            reveal_strlit(", 格式: ");
            reveal_strlit(", 大小: ");
        }
        let mut s = String::new();
        match self {
            Payload::Text(t) => {
                s.append("文本消息 - 设备: ");
                s.append(t.device_id.as_str());
                s.append(", 时间: ");
                s.append(time);
                s.append(", 内容长度: ");
                push_decimal(&mut s, t.content.len() as u64);
            },
            Payload::Image(i) => {
                s.append("图片消息 - 设备: ");
                s.append(i.device_id.as_str());
                s.append(", 时间: ");
                s.append(time);
                s.append(", 尺寸: ");
                push_decimal(&mut s, i.width as u64);
                s.append("x");
                push_decimal(&mut s, i.height as u64);
                s.append(", 格式: ");
                s.append(i.format.as_str());
                s.append(", 大小: ");
                push_decimal(&mut s, i.size as u64);
            },
        }
        s
    }

    /// The description of the payload, its time written as chrono writes a UTC
    /// time; `None` for a time chrono cannot represent.
    pub fn to_display_string(&self) -> (r: Option<String>)
        ensures
            match utc_display(timestamp_of(*self).secs, timestamp_of(*self).nanos) {
                Some(t) => r matches Some(s) && s@ == payload_display(*self, t),
                None => r is None,
            },
    {
        let ts = self.get_timestamp();
        match utc_text(ts.secs, ts.nanos) {
            Some(t) => Some(self.display_with_time(t.as_str())),
            None => None,
        }
    }

    /// Lowercase hex of the SHA-256 digest of the content.
    pub fn hash(&self) -> (h: String)
        ensures
            h@ == hash_of(*self),
            h@.len() == 64,
    {
        let digest = sha256(self.get_content().as_slice());
        proof { lemma_hex_len(digest@); }
        hex_encode(&digest)
    }

    /// Whether two payloads carry content with the same digest.
    pub fn eq(&self, other: &Payload) -> (b: bool)
        ensures
            b == (sha256_spec(content_of(*self)) == sha256_spec(content_of(*other))),
    {
        let a = self.hash();
        let c = other.hash();
        proof {
            if a@ == c@ {
                law_hex_injective(sha256_spec(content_of(*self)), sha256_spec(content_of(*other)));
            }
        }
        a == c
    }
}

/// A clipboard content sent to other devices.
#[derive(Debug, Clone)]
pub struct ClipboardSyncMessage {
    pub payload: Payload,
}

impl ClipboardSyncMessage {
    /// The message carrying a payload.
    pub fn from_payload(payload: Payload) -> (m: Self)
        ensures
            m.payload == payload,
    {
        ClipboardSyncMessage { payload }
    }
}

/// What a device tells others about a device it knows.
#[derive(Debug, Clone)]
pub struct DeviceSyncInfo {
    pub id: String,
    pub ip: Option<String>,
    pub server_port: Option<u16>,
    pub status: DeviceStatus,
    pub updated_at: Option<i32>,
}

impl DeviceSyncInfo {
    /// The announcement of a device.
    pub fn from_device(d: &Device) -> (r: Self)
        ensures
            r.id@ == d.id@,
            opt_str_view(r.ip) == opt_str_view(d.ip),
            r.server_port == d.server_port,
            r.status == d.status,
            r.updated_at == d.updated_at,
    {
        DeviceSyncInfo {
            id: d.id.clone(),
            ip: clone_opt_string(&d.ip),
            server_port: d.server_port,
            status: d.status,
            updated_at: d.updated_at,
        }
    }

    /// The device a receiver records for an announcement: the service port also
    /// stands for the port, and the device is not the receiver's own.
    pub fn to_device(&self) -> (d: Device)
        ensures
            d@ == announced_device(*self),
    {
        let mut device = Device::new(
            self.id.clone(),
            clone_opt_string(&self.ip),
            self.server_port,
            self.server_port,
        );
        device.status = self.status;
        device.updated_at = self.updated_at;
        device
    }
}

/// The device a receiver records for an announcement.
pub open spec fn announced_device(i: DeviceSyncInfo) -> DeviceModel {
    DeviceModel {
        id: i.id@,
        ip: opt_str_view(i.ip),
        port: i.server_port,
        server_port: i.server_port,
        status: i.status,
        self_device: false,
        updated_at: i.updated_at,
    }
}

/// A device list passed from device to device; `replay_device_ids` lists the
/// devices that already passed it on.
#[derive(Debug, Clone)]
pub struct DevicesSyncMessage {
    pub devices: Vec<DeviceSyncInfo>,
    pub replay_device_ids: Vec<String>,
}

impl DevicesSyncMessage {
    pub fn new(devices: Vec<DeviceSyncInfo>, replay_device_ids: Vec<String>) -> (m: Self)
        ensures
            m.devices == devices,
            m.replay_device_ids == replay_device_ids,
    {
        DevicesSyncMessage { devices, replay_device_ids }
    }
}

/// A device introducing itself to the device it connected to.
#[derive(Debug, Clone)]
pub struct RegisterDeviceMessage {
    pub id: String,
    pub ip: Option<String>,
    pub server_port: Option<u16>,
}

impl RegisterDeviceMessage {
    pub fn new(id: String, ip: Option<String>, server_port: Option<u16>) -> (m: Self)
        ensures
            m.id@ == id@,
            opt_str_view(m.ip) == opt_str_view(ip),
            m.server_port == server_port,
    {
        RegisterDeviceMessage { id, ip, server_port }
    }
}

/// The messages of the websocket protocol.
#[derive(Debug, Clone)]
pub enum WebSocketMessage {
    ClipboardSync(ClipboardSyncMessage),
    DeviceListSync(DevicesSyncMessage),
    Register(RegisterDeviceMessage),
    Unregister(String),
}

} // verus!
