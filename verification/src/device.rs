//! Devices, their status, and the row form in which the device table keeps them.

use vstd::prelude::*;
use crate::text::{decimal, push_decimal};

verus! {

/// Whether a device is reachable.
#[derive(Debug, Clone, Copy, PartialEq, Eq, Structural, PartialOrd, Ord, Hash)]
pub enum DeviceStatus {
    Online,
    Offline,
    Unknown,
}

impl DeviceStatus {
    /// The integer stored for a status: 0, 1 and 2 in declaration order.
    pub open spec fn code(self) -> i32 {
        match self {
            DeviceStatus::Online => 0,
            DeviceStatus::Offline => 1,
            DeviceStatus::Unknown => 2,
        }
    }

    /// The status stored as `v`, if `v` is one of the three codes.
    pub open spec fn of_code(v: i32) -> Option<DeviceStatus> {
        if v == 0 {
            Some(DeviceStatus::Online)
        } else if v == 1 {
            Some(DeviceStatus::Offline)
        } else if v == 2 {
            Some(DeviceStatus::Unknown)
        } else {
            None
        }
    }

    /// The integer code of the status.
    pub fn to_i32(self) -> (r: i32)
        ensures
            r == self.code(),
    {
        match self {
            DeviceStatus::Online => 0,
            DeviceStatus::Offline => 1,
            DeviceStatus::Unknown => 2,
        }
    }

    /// The status with the given code; `None` for any other integer.
    pub fn try_from_i32(value: i32) -> (r: Option<DeviceStatus>)
        ensures
            r == DeviceStatus::of_code(value),
    {
        if value == 0 {
            Some(DeviceStatus::Online)
        } else if value == 1 {
            Some(DeviceStatus::Offline)
        } else if value == 2 {
            Some(DeviceStatus::Unknown)
        } else {
            None
        }
    }

    /// Statuses compare as their codes do.
    pub fn less_than(self, other: DeviceStatus) -> (r: bool)
        ensures
            r == (self.code() < other.code()),
    {
        self.to_i32() < other.to_i32()
    }
}

/// Decoding the code of a status gives the status back.
pub proof fn law_status_code_roundtrip(s: DeviceStatus)
    ensures
        DeviceStatus::of_code(s.code()) == Some(s),
{
}

/// Only the three codes decode, and each decodes to the status whose code it is.
pub proof fn law_status_code_injective(v: i32)
    ensures
        DeviceStatus::of_code(v) is Some <==> 0 <= v <= 2,
        DeviceStatus::of_code(v) matches Some(s) ==> s.code() == v,
{
}

/// The text of an optional string.
pub open spec fn opt_str_view(o: Option<String>) -> Option<Seq<char>> {
    match o {
        Some(s) => Some(s@),
        None => None,
    }
}

/// A copy of an optional string.
pub fn clone_opt_string(o: &Option<String>) -> (r: Option<String>)
    ensures
        opt_str_view(r) == opt_str_view(*o),
{
    match o {
        Some(s) => Some(s.clone()),
        None => None,
    }
}

/// A device as the contracts see it.
pub struct DeviceModel {
    pub id: Seq<char>,
    pub ip: Option<Seq<char>>,
    pub port: Option<u16>,
    pub server_port: Option<u16>,
    pub status: DeviceStatus,
    pub self_device: bool,
    pub updated_at: Option<i32>,
}

/// A device known to this node.
#[derive(Debug, Clone)]
pub struct Device {
    /// Device id
    pub id: String,
    /// Device ip
    pub ip: Option<String>,
    /// Device port
    pub port: Option<u16>,
    /// Port of the device's service
    pub server_port: Option<u16>,
    /// Device status
    pub status: DeviceStatus,
    /// Whether this is the local device
    pub self_device: bool,
    /// Time of the last update (seconds since the epoch)
    pub updated_at: Option<i32>,
}

impl View for Device {
    type V = DeviceModel;

    open spec fn view(&self) -> DeviceModel {
        DeviceModel {
            id: self.id@,
            ip: opt_str_view(self.ip),
            port: self.port,
            server_port: self.server_port,
            status: self.status,
            self_device: self.self_device,
            updated_at: self.updated_at,
        }
    }
}

impl Device {
    /// A device with status `Unknown`, not the local one, never updated.
    pub fn new(id: String, ip: Option<String>, port: Option<u16>, server_port: Option<u16>) -> (r: Self)
        ensures
            r.id@ == id@,
            opt_str_view(r.ip) == opt_str_view(ip),
            r.port == port,
            r.server_port == server_port,
            r.status == DeviceStatus::Unknown,
            !r.self_device,
            r.updated_at is None,
    {
        Device { id, ip, port, server_port, status: DeviceStatus::Unknown, self_device: false, updated_at: None }
    }

    /// A field-by-field copy.
    pub fn duplicate(&self) -> (r: Self)
        ensures
            r@ == self@,
    {
        Device {
            id: self.id.clone(),
            ip: clone_opt_string(&self.ip),
            port: self.port,
            server_port: self.server_port,
            status: self.status,
            self_device: self.self_device,
            updated_at: self.updated_at,
        }
    }

    /// Two devices are the same device when their ids are equal.
    pub fn same_device(&self, other: &Device) -> (r: bool)
        ensures
            r == (self.id@ == other.id@),
    {
        self.id == other.id
    }

    /// The text `Device(id: .., ip: .., port: .., server_port: ..)`, with an
    /// empty ip and port 0 standing for absent values.
    pub fn to_display_string(&self) -> (r: String)
        ensures
            r@ == display_spec(self@),
    {
        let mut s = String::new();
        proof {
            reveal_strlit("Device(id: ");
            reveal_strlit(", ip: ");
            reveal_strlit(", port: ");
            reveal_strlit(", server_port: ");
            reveal_strlit(")");
        }
        s.append("Device(id: ");
        s.append(self.id.as_str());
        s.append(", ip: ");
        match &self.ip {
            Some(ip) => s.append(ip.as_str()),
            None => {},
        }
        s.append(", port: ");
        push_decimal(&mut s, match self.port { Some(p) => p as u64, None => 0 });
        s.append(", server_port: ");
        push_decimal(&mut s, match self.server_port { Some(p) => p as u64, None => 0 });
        s.append(")");
        s
    }
}

/// The display text of a device.
pub open spec fn display_spec(d: DeviceModel) -> Seq<char> {
    "Device(id: "@ + d.id + ", ip: "@ + match d.ip { Some(ip) => ip, None => Seq::empty() }
        + ", port: "@ + decimal(match d.port { Some(p) => p as nat, None => 0 })
        + ", server_port: "@ + decimal(match d.server_port { Some(p) => p as nat, None => 0 })
        + ")"@
}

impl PartialEq for Device {
    fn eq(&self, other: &Self) -> (r: bool) {
        self.id == other.id
    }
}

impl vstd::std_specs::cmp::PartialEqSpecImpl for Device {
    open spec fn obeys_eq_spec() -> bool {
        true
    }

    open spec fn eq_spec(&self, other: &Device) -> bool {
        self.id@ == other.id@
    }
}

/// A device-table row as the contracts see it.
pub struct DbDeviceModel {
    pub id: Seq<char>,
    pub ip: Option<Seq<char>>,
    pub port: Option<i32>,
    pub server_port: Option<i32>,
    pub status: i32,
    pub self_device: bool,
    pub updated_at: i32,
}

/// A row of the device table.
#[derive(Debug, Clone)]
pub struct DbDevice {
    pub id: String,
    pub ip: Option<String>,
    pub port: Option<i32>,
    pub server_port: Option<i32>,
    pub status: i32,
    pub self_device: bool,
    pub updated_at: i32,
}

impl View for DbDevice {
    type V = DbDeviceModel;

    open spec fn view(&self) -> DbDeviceModel {
        DbDeviceModel {
            id: self.id@,
            ip: opt_str_view(self.ip),
            port: self.port,
            server_port: self.server_port,
            status: self.status,
            self_device: self.self_device,
            updated_at: self.updated_at,
        }
    }
}

/// Widens an optional port to the integer column type.
pub open spec fn port_to_column(p: Option<u16>) -> Option<i32> {
    match p {
        Some(v) => Some(v as i32),
        None => None,
    }
}

/// Narrows an integer column to a port, keeping its low 16 bits.
pub open spec fn column_to_port(p: Option<i32>) -> Option<u16> {
    match p {
        Some(v) => Some(v as u16),
        None => None,
    }
}

/// The row stored for a device: ports widened, status as its code, and a
/// missing update time stored as 0.
pub open spec fn row_of(d: DeviceModel) -> DbDeviceModel {
    DbDeviceModel {
        id: d.id,
        ip: d.ip,
        port: port_to_column(d.port),
        server_port: port_to_column(d.server_port),
        status: d.status.code(),
        self_device: d.self_device,
        updated_at: match d.updated_at { Some(t) => t, None => 0 },
    }
}

/// The device read back from a row: ports narrowed, an unknown status code
/// read as `Unknown`, and the update time always present.
pub open spec fn device_of_row(r: DbDeviceModel) -> DeviceModel {
    DeviceModel {
        id: r.id,
        ip: r.ip,
        port: column_to_port(r.port),
        server_port: column_to_port(r.server_port),
        status: match DeviceStatus::of_code(r.status) { Some(s) => s, None => DeviceStatus::Unknown },
        self_device: r.self_device,
        updated_at: Some(r.updated_at),
    }
}

fn widen_port(p: Option<u16>) -> (r: Option<i32>)
    ensures
        r == port_to_column(p),
{
    match p {
        Some(v) => Some(v as i32),
        None => None,
    }
}

fn narrow_port(p: Option<i32>) -> (r: Option<u16>)
    ensures
        r == column_to_port(p),
{
    match p {
        Some(v) => Some(v as u16),
        None => None,
    }
}

impl DbDevice {
    /// The row stored for a device.
    pub fn from_device(device: &Device) -> (r: DbDevice)
        ensures
            r@ == row_of(device@),
    {
        DbDevice {
            id: device.id.clone(),
            ip: clone_opt_string(&device.ip),
            port: widen_port(device.port),
            server_port: widen_port(device.server_port),
            status: device.status.to_i32(),
            self_device: device.self_device,
            updated_at: match device.updated_at { Some(t) => t, None => 0 },
        }
    }

    /// A field-by-field copy.
    pub fn duplicate(&self) -> (r: Self)
        ensures
            r@ == self@,
    {
        DbDevice {
            id: self.id.clone(),
            ip: clone_opt_string(&self.ip),
            port: self.port,
            server_port: self.server_port,
            status: self.status,
            self_device: self.self_device,
            updated_at: self.updated_at,
        }
    }
}

impl Device {
    /// The device read back from a row.
    pub fn from_db(row: &DbDevice) -> (r: Device)
        ensures
            r@ == device_of_row(row@),
    {
        let status = match DeviceStatus::try_from_i32(row.status) {
            Some(s) => s,
            None => DeviceStatus::Unknown,
        };
        Device {
            id: row.id.clone(),
            ip: clone_opt_string(&row.ip),
            port: narrow_port(row.port),
            server_port: narrow_port(row.server_port),
            status,
            self_device: row.self_device,
            updated_at: Some(row.updated_at),
        }
    }
}

/// Storing a device and reading it back keeps every field, except that a
/// missing update time comes back as 0.
pub proof fn law_device_row_roundtrip(d: DeviceModel)
    ensures
        device_of_row(row_of(d)) == (DeviceModel {
            updated_at: Some(match d.updated_at { Some(t) => t, None => 0 }),
            ..d
        }),
{
    law_status_code_roundtrip(d.status);
    match d.port {
        Some(p) => { assert((p as i32) as u16 == p); },
        None => {},
    }
    match d.server_port {
        Some(p) => { assert((p as i32) as u16 == p); },
        None => {},
    }
}

} // verus!
