//! Decisions of the device-to-device protocol: what to connect to, what to
//! forward, whom to send to, and when to give a connection up.

use vstd::prelude::*;
use crate::device::{Device, DeviceModel, DeviceStatus, opt_str_view};
use crate::device_manager::{DeviceManager, devices_of, merge_new_rows, merge_updates};
use crate::device_table::status_updated_rows;
use crate::device_table::distinct_ids;
use crate::message::{
    ClipboardSyncMessage, DeviceSyncInfo, DevicesSyncMessage, RegisterDeviceMessage,
    WebSocketMessage, announced_device,
};
use crate::text::{contains_infix, decimal, has_infix, push_decimal, str_chars};

verus! {

/// Where a message came from: a client connected to this node (by address),
/// or a device this node connected to (by id).
#[derive(Debug, Clone)]
pub enum MessageSource {
    IpPort(String, u16),
    DeviceId(String),
}

/// The text `ip:port`.
pub open spec fn ip_port_spec(ip: Seq<char>, port: nat) -> Seq<char> {
    ip + ":"@ + decimal(port)
}

/// The key `ip:port` under which a connection from an address is kept.
pub fn ip_port(ip: &str, port: u16) -> (s: String)
    ensures
        s@ == ip_port_spec(ip@, port as nat),
{
    let mut s = String::from_str(ip);
    proof { reveal_strlit(":"); }
    s.append(":");
    push_decimal(&mut s, port as u64);
    s
}

/// The websocket address `ws://ip:port/ws` of a service.
pub open spec fn ws_uri_spec(ip: Seq<char>, port: nat) -> Seq<char> {
    "ws://"@ + ip + ":"@ + decimal(port) + "/ws"@
}

/// The websocket address of a service at `ip` and `port`.
pub fn ws_uri(ip: &str, port: u16) -> (s: String)
    ensures
        s@ == ws_uri_spec(ip@, port as nat),
{
    proof {
        reveal_strlit("ws://");
        reveal_strlit(":");
        reveal_strlit("/ws");
    }
    let mut s = String::from_str("ws://");
    s.append(ip);
    s.append(":");
    push_decimal(&mut s, port as u64);
    s.append("/ws");
    s
}

/// The websocket address of a known device's service.
pub fn device_ws_uri(device: &Device) -> (s: String)
    requires
        device.ip is Some,
        device.server_port is Some,
    ensures
        s@ == ws_uri_spec(device.ip->0@, device.server_port->0 as nat),
{
    match (&device.ip, device.server_port) {
        (Some(ip), Some(port)) => ws_uri(ip.as_str(), port),
        _ => String::new(),
    }
}

/// Errors of the protocol decisions.
#[derive(Debug, Clone, Copy, PartialEq, Eq, Structural)]
pub enum SyncError {
    /// The peer's address is empty or its port is 0.
    PeerNotSet,
}

/// The address of the configured peer device, refused when the address is
/// empty or the port is 0.
pub fn peer_uri(peer_addr: &str, peer_port: u16) -> (r: Result<String, SyncError>)
    ensures
        (peer_addr@.len() == 0 || peer_port == 0) ==> r == Err::<String, SyncError>(SyncError::PeerNotSet),
        !(peer_addr@.len() == 0 || peer_port == 0) ==> (r matches Ok(s) && s@ == ws_uri_spec(peer_addr@, peer_port as nat)),
{
    if peer_addr.is_empty() || peer_port == 0 {
        return Err(SyncError::PeerNotSet);
    }
    Ok(ws_uri(peer_addr, peer_port))
}

/// What the connection manager does when it starts.
#[derive(Debug)]
pub enum StartPlan {
    /// No device known: connect to the configured peer.
    ConnectPeer(String, u16),
    /// No device known and no peer configured: connect to nothing.
    NothingToConnect,
    /// Connect to each of these known devices.
    ConnectDevices(Vec<Device>),
}

/// Decides what to connect to at start: the known devices other than this
/// one, or, when there are none, the configured peer if both its address and
/// port are set.
pub fn plan_start(devices: Vec<Device>, peer_addr: Option<String>, peer_port: Option<u16>) -> (p: StartPlan)
    ensures
        devices.len() > 0 ==> (p matches StartPlan::ConnectDevices(v) && v@ == devices@),
        devices.len() == 0 ==> match (peer_addr, peer_port) {
            (Some(a), Some(port)) => p matches StartPlan::ConnectPeer(a2, port2) && a2@ == a@ && port2 == port,
            _ => p is NothingToConnect,
        },
{
    if devices.len() == 0 {
        match (peer_addr, peer_port) {
            (Some(a), Some(port)) => StartPlan::ConnectPeer(a, port),
            _ => StartPlan::NothingToConnect,
        }
    } else {
        StartPlan::ConnectDevices(devices)
    }
}

/// Whether `s` is one of `list`.
pub fn contains_string(list: &Vec<String>, s: &String) -> (b: bool)
    ensures
        b == exists|i: int| 0 <= i < list.len() && #[trigger] list@[i]@ == s@,
{
    let mut i: usize = 0;
    while i < list.len()
        invariant
            i <= list.len(),
            forall|k: int| 0 <= k < i ==> #[trigger] list@[k]@ != s@,
        decreases list.len() - i,
    {
        if list[i] == *s {
            return true;
        }
        i = i + 1;
    }
    false
}

/// The texts of a list of strings.
pub open spec fn texts(list: Seq<String>) -> Seq<Seq<char>> {
    list.map_values(|s: String| s@)
}

/// The key of a device's incoming connection: `ip:port`, with an empty ip and
/// port 0 standing for absent values.
pub open spec fn incoming_key(d: DeviceModel) -> Seq<char> {
    ip_port_spec(match d.ip { Some(ip) => ip, None => Seq::empty() }, match d.port { Some(p) => p as nat, None => 0 })
}

/// Whether a device is connected: an outgoing connection under its id, or an
/// incoming one under its address.
pub fn is_connected(device: &Device, outgoing: &Vec<String>, incoming: &Vec<String>) -> (b: bool)
    ensures
        b == (texts(outgoing@).contains(device@.id) || texts(incoming@).contains(incoming_key(device@))),
{
    let key = match (&device.ip, device.port) {
        (Some(ip), Some(p)) => ip_port(ip.as_str(), p),
        (Some(ip), None) => ip_port(ip.as_str(), 0),
        (None, Some(p)) => ip_port("", p),
        (None, None) => ip_port("", 0),
    };
    proof { reveal_strlit(""); }
    let a = contains_string(outgoing, &device.id);
    let b = contains_string(incoming, &key);
    proof {
        if a {
            let i = choose|i: int| 0 <= i < outgoing.len() && #[trigger] outgoing@[i]@ == device.id@;
            assert(texts(outgoing@)[i] == device.id@);
        }
        if texts(outgoing@).contains(device@.id) {
            let i = choose|i: int| 0 <= i < texts(outgoing@).len() && texts(outgoing@)[i] == device@.id;
            assert(outgoing@[i]@ == device.id@);
        }
        if b {
            let i = choose|i: int| 0 <= i < incoming.len() && #[trigger] incoming@[i]@ == key@;
            assert(texts(incoming@)[i] == key@);
        }
        if texts(incoming@).contains(incoming_key(device@)) {
            let i = choose|i: int| 0 <= i < texts(incoming@).len() && texts(incoming@)[i] == incoming_key(device@);
            assert(incoming@[i]@ == key@);
        }
    }
    a || b
}

/// The connections a broadcast goes to: all of them, less the excluded ones, in order.
pub open spec fn recipients_spec(ids: Seq<Seq<char>>, excludes: Option<Seq<Seq<char>>>) -> Seq<Seq<char>>
    decreases ids.len(),
{
    if ids.len() == 0 {
        Seq::empty()
    } else {
        let p = recipients_spec(ids.drop_last(), excludes);
        let id = ids.last();
        match excludes {
            Some(ex) => if ex.contains(id) { p } else { p.push(id) },
            None => p.push(id),
        }
    }
}

/// The texts of an optional list of strings.
pub open spec fn opt_texts(o: Option<Vec<String>>) -> Option<Seq<Seq<char>>> {
    match o {
        Some(v) => Some(texts(v@)),
        None => None,
    }
}

/// Selects the connections a broadcast goes to.
pub fn select_recipients(ids: &Vec<String>, excludes: &Option<Vec<String>>) -> (r: Vec<String>)
    ensures
        texts(r@) == recipients_spec(texts(ids@), opt_texts(*excludes)),
{
    let ghost ex = opt_texts(*excludes);
    let mut out: Vec<String> = Vec::new();
    let mut i: usize = 0;
    while i < ids.len()
        invariant
            i <= ids.len(),
            ex == opt_texts(*excludes),
            texts(out@) == recipients_spec(texts(ids@).take(i as int), ex),
        decreases ids.len() - i,
    {
        proof {
            assert(texts(ids@).take(i + 1).drop_last() =~= texts(ids@).take(i as int));
            assert(texts(ids@).take(i + 1).last() == ids@[i as int]@);
        }
        let keep = match excludes {
            Some(e) => {
                let hit = contains_string(e, &ids[i]);
                proof {
                    if hit {
                        let k = choose|k: int| 0 <= k < e.len() && #[trigger] e@[k]@ == ids@[i as int]@;
                        assert(texts(e@)[k] == ids@[i as int]@);
                    }
                    if texts(e@).contains(ids@[i as int]@) {
                        let k = choose|k: int| 0 <= k < texts(e@).len() && texts(e@)[k] == ids@[i as int]@;
                        assert(e@[k]@ == ids@[i as int]@);
                    }
                }
                !hit
            },
            None => true,
        };
        let ghost pre = out@;
        if keep {
            out.push(ids[i].clone());
            assert(texts(out@) =~= texts(pre).push(ids@[i as int]@));
        }
        i = i + 1;
    }
    assert(texts(ids@).take(ids.len() as int) =~= texts(ids@));
    out
}

/// The outcome of a device-list message: the devices it made known (to be
/// announced), and the message to pass on with the connections to leave out.
pub struct DeviceListSyncOutcome {
    pub added: Vec<Device>,
    pub forward: Option<(DevicesSyncMessage, Vec<String>)>,
}

/// The fields of an announcement, as the contracts compare them.
pub open spec fn info_matches(i: DeviceSyncInfo, d: DeviceModel) -> bool {
    &&& i.id@ == d.id
    &&& opt_str_view(i.ip) == d.ip
    &&& i.server_port == d.server_port
    &&& i.status == d.status
    &&& i.updated_at == d.updated_at
}

/// Handles a device list received from another device: merges it into the
/// registry, then, unless this device already passed the list on, adds itself
/// to the list of devices that did and passes on its own device list to every
/// connection but those devices.
pub fn handle_device_list_sync(
    manager: &mut DeviceManager,
    data: DevicesSyncMessage,
    self_device_id: &String,
) -> (out: DeviceListSyncOutcome)
    requires
        old(manager).wf(),
    ensures
        final(manager).wf(),
        ({
            let devs = data.devices@.map_values(|i: DeviceSyncInfo| announced_device(i));
            let new_rows = merge_new_rows(old(manager)@, devs);
            if distinct_ids(new_rows) {
                &&& final(manager)@ == merge_updates(old(manager)@ + new_rows, old(manager)@, devs)
                &&& out.added@.map_values(|d: Device| d@) == devices_of(new_rows)
            } else {
                &&& final(manager)@ == old(manager)@
                &&& out.added@.len() == 0
            }
        }),
        texts(data.replay_device_ids@).contains(self_device_id@) ==> out.forward is None,
        !texts(data.replay_device_ids@).contains(self_device_id@) ==> (out.forward matches Some((m, ex)) && {
            &&& texts(ex@) == texts(data.replay_device_ids@).push(self_device_id@)
            &&& texts(m.replay_device_ids@) == texts(ex@)
            &&& m.devices@.len() == devices_of(final(manager)@).len()
            &&& forall|k: int| 0 <= k < m.devices@.len() ==> info_matches(#[trigger] m.devices@[k], devices_of(final(manager)@)[k])
        }),
{
    let ghost devs = data.devices@.map_values(|i: DeviceSyncInfo| announced_device(i));
    let mut devices: Vec<Device> = Vec::new();
    let mut i: usize = 0;
    while i < data.devices.len()
        invariant
            i <= data.devices.len(),
            devs == data.devices@.map_values(|i: DeviceSyncInfo| announced_device(i)),
            devices.len() == i,
            forall|k: int| 0 <= k < i ==> #[trigger] devices@[k]@ == devs[k],
        decreases data.devices.len() - i,
    {
        devices.push(data.devices[i].to_device());
        i = i + 1;
    }
    assert(devices@.map_values(|d: Device| d@) =~= devs);
    let added = match manager.merge(&devices) {
        Ok(added) => added,
        Err(_) => Vec::new(),
    };
    let mut replay = data.replay_device_ids;
    if contains_string(&replay, self_device_id) {
        proof {
            let k = choose|k: int| 0 <= k < replay.len() && #[trigger] replay@[k]@ == self_device_id@;
            assert(texts(replay@)[k] == self_device_id@);
        }
        return DeviceListSyncOutcome { added, forward: None };
    }
    proof {
        if texts(replay@).contains(self_device_id@) {
            let k = choose|k: int| 0 <= k < texts(replay@).len() && texts(replay@)[k] == self_device_id@;
            assert(replay@[k]@ == self_device_id@);
        }
    }
    let ghost replay0 = replay@;
    replay.push(self_device_id.clone());
    assert(texts(replay@) =~= texts(replay0).push(self_device_id@));
    let excludes = copy_strings(&replay);
    let all = match manager.get_all_devices() {
        Ok(v) => v,
        Err(_) => Vec::new(),
    };
    let mut infos: Vec<DeviceSyncInfo> = Vec::new();
    let mut j: usize = 0;
    while j < all.len()
        invariant
            j <= all.len(),
            all@.map_values(|d: Device| d@) == devices_of(manager@),
            infos.len() == j,
            forall|k: int| 0 <= k < j ==> info_matches(#[trigger] infos@[k], devices_of(manager@)[k]),
        decreases all.len() - j,
    {
        let info = DeviceSyncInfo::from_device(&all[j]);
        assert(all@[j as int]@ == devices_of(manager@)[j as int]);
        infos.push(info);
        j = j + 1;
    }
    DeviceListSyncOutcome {
        added,
        forward: Some((DevicesSyncMessage::new(infos, replay), excludes)),
    }
}

/// A copy of a list of strings.
pub fn copy_strings(list: &Vec<String>) -> (r: Vec<String>)
    ensures
        texts(r@) == texts(list@),
{
    let mut out: Vec<String> = Vec::new();
    let mut i: usize = 0;
    while i < list.len()
        invariant
            i <= list.len(),
            out.len() == i,
            forall|k: int| 0 <= k < i ==> #[trigger] out@[k]@ == list@[k]@,
        decreases list.len() - i,
    {
        out.push(list[i].clone());
        i = i + 1;
    }
    assert(texts(out@) =~= texts(list@));
    out
}

/// The device list a device sends right after connecting: every device it
/// knows, with itself as the only device that passed the list on.
pub fn initial_device_list(devices: &Vec<Device>, self_id: String) -> (m: DevicesSyncMessage)
    ensures
        m.devices@.len() == devices@.len(),
        forall|k: int| 0 <= k < devices@.len() ==> info_matches(#[trigger] m.devices@[k], devices@[k]@),
        m.replay_device_ids@.len() == 1,
        m.replay_device_ids@[0]@ == self_id@,
{
    let mut infos: Vec<DeviceSyncInfo> = Vec::new();
    let mut j: usize = 0;
    while j < devices.len()
        invariant
            j <= devices.len(),
            infos.len() == j,
            forall|k: int| 0 <= k < j ==> info_matches(#[trigger] infos@[k], devices@[k]@),
        decreases devices.len() - j,
    {
        infos.push(DeviceSyncInfo::from_device(&devices[j]));
        j = j + 1;
    }
    let mut replay: Vec<String> = Vec::new();
    replay.push(self_id);
    DevicesSyncMessage::new(infos, replay)
}

/// The device id recorded for an address key, if any (the first entry with the key).
pub open spec fn lookup_spec(entries: Seq<(Seq<char>, Seq<char>)>, key: Seq<char>) -> Option<Seq<char>>
    decreases entries.len(),
{
    if entries.len() == 0 {
        None
    } else {
        match lookup_spec(entries.drop_last(), key) {
            Some(v) => Some(v),
            None => if entries.last().0 == key { Some(entries.last().1) } else { None },
        }
    }
}

/// Which device id connected from which `ip:port`.
pub struct AddressBook {
    entries: Vec<(String, String)>,
}

impl View for AddressBook {
    type V = Seq<(Seq<char>, Seq<char>)>;

    closed spec fn view(&self) -> Seq<(Seq<char>, Seq<char>)> {
        self.entries@.map_values(|e: (String, String)| (e.0@, e.1@))
    }
}

/// `lookup_spec` is read off the first entry with the key.
proof fn lemma_lookup(entries: Seq<(Seq<char>, Seq<char>)>, key: Seq<char>, i: int)
    requires
        0 <= i < entries.len(),
        entries[i].0 == key,
        forall|j: int| 0 <= j < i ==> (#[trigger] entries[j]).0 != key,
    ensures
        lookup_spec(entries, key) == Some(entries[i].1),
    decreases entries.len(),
{
    if i < entries.len() - 1 {
        let pre = entries.drop_last();
        assert forall|j: int| 0 <= j < i implies (#[trigger] pre[j]).0 != key by {
            assert(pre[j] == entries[j]);
        }
        lemma_lookup(pre, key, i);
    } else {
        lemma_lookup_absent(entries.drop_last(), key);
    }
}

/// No entry with the key, no value.
proof fn lemma_lookup_absent(entries: Seq<(Seq<char>, Seq<char>)>, key: Seq<char>)
    requires
        forall|j: int| 0 <= j < entries.len() ==> (#[trigger] entries[j]).0 != key,
    ensures
        lookup_spec(entries, key) is None,
    decreases entries.len(),
{
    if entries.len() > 0 {
        let pre = entries.drop_last();
        assert forall|j: int| 0 <= j < pre.len() implies (#[trigger] pre[j]).0 != key by {
            assert(pre[j] == entries[j]);
        }
        lemma_lookup_absent(pre, key);
    }
}

impl AddressBook {
    pub fn new() -> (b: Self)
        ensures
            b@ == Seq::<(Seq<char>, Seq<char>)>::empty(),
    {
        let b = AddressBook { entries: Vec::new() };
        assert(b@ =~= Seq::<(Seq<char>, Seq<char>)>::empty());
        b
    }

    /// The device id recorded for an address.
    pub fn get(&self, ip_port: &String) -> (r: Option<String>)
        ensures
            match r {
                Some(id) => lookup_spec(self@, ip_port@) == Some(id@),
                None => lookup_spec(self@, ip_port@) is None,
            },
    {
        let ghost v = self@;
        let mut i: usize = 0;
        while i < self.entries.len()
            invariant
                i <= self.entries.len(),
                v == self@,
                forall|j: int| 0 <= j < i ==> (#[trigger] v[j]).0 != ip_port@,
            decreases self.entries.len() - i,
        {
            assert(v[i as int] == (self.entries@[i as int].0@, self.entries@[i as int].1@));
            if self.entries[i].0 == *ip_port {
                proof { lemma_lookup(v, ip_port@, i as int); }
                return Some(self.entries[i].1.clone());
            }
            i = i + 1;
        }
        proof { lemma_lookup_absent(v, ip_port@); }
        None
    }

    /// Records that `device_id` connected from `ip_port`, replacing an earlier record.
    pub fn insert(&mut self, ip_port: String, device_id: String)
        ensures
            lookup_spec(final(self)@, ip_port@) == Some(device_id@),
            forall|k: Seq<char>| k != ip_port@ ==> #[trigger] lookup_spec(final(self)@, k) == lookup_spec(old(self)@, k),
    {
        let ghost v = self@;
        let mut i: usize = 0;
        while i < self.entries.len()
            invariant
                i <= self.entries.len(),
                v == self@,
                v == old(self)@,
                forall|j: int| 0 <= j < i ==> (#[trigger] v[j]).0 != ip_port@,
            decreases self.entries.len() - i,
        {
            assert(v[i as int] == (self.entries@[i as int].0@, self.entries@[i as int].1@));
            if self.entries[i].0 == ip_port {
                let ghost did = device_id@;
                let ghost key = ip_port@;
                assert(v[i as int].0 == key);
                self.entries.set(i, (ip_port, device_id));
                proof {
                    let nv = self@;
                    assert(nv =~= v.update(i as int, (v[i as int].0, did)));
                    assert forall|j: int| 0 <= j < i implies (#[trigger] nv[j]).0 != v[i as int].0 by {
                        assert(nv[j] == v[j]);
                    }
                    lemma_lookup(nv, v[i as int].0, i as int);
                    assert forall|k: Seq<char>| k != v[i as int].0 implies #[trigger] lookup_spec(nv, k) == lookup_spec(v, k) by {
                        lemma_lookup_update_other(v, i as int, did, k);
                    }
                }
                return;
            }
            i = i + 1;
        }
        let ghost key = ip_port@;
        let ghost did = device_id@;
        self.entries.push((ip_port, device_id));
        proof {
            let nv = self@;
            assert(nv =~= v.push((key, did)));
            assert(nv.drop_last() =~= v);
            lemma_lookup_absent(v, key);
        }
    }
}

/// Changing the value of one entry changes no other key's lookup.
proof fn lemma_lookup_update_other(v: Seq<(Seq<char>, Seq<char>)>, i: int, val: Seq<char>, k: Seq<char>)
    requires
        0 <= i < v.len(),
        k != v[i].0,
    ensures
        lookup_spec(v.update(i, (v[i].0, val)), k) == lookup_spec(v, k),
    decreases v.len(),
{
    let w = v.update(i, (v[i].0, val));
    if v.len() > 0 {
        if i < v.len() - 1 {
            assert(w.drop_last() =~= v.drop_last().update(i, (v[i].0, val)));
            lemma_lookup_update_other(v.drop_last(), i, val, k);
        } else {
            assert(w.drop_last() =~= v.drop_last());
        }
    }
}

/// A device registered over an incoming connection: it is online, and its
/// address is recorded under its id.
pub fn handle_register(manager: &mut DeviceManager, book: &mut AddressBook, message: &RegisterDeviceMessage, ip: &str, port: u16)
    requires
        old(manager).wf(),
    ensures
        final(manager).wf(),
        final(manager)@ == status_updated_rows(old(manager)@, message.id@, DeviceStatus::Online.code()),
        lookup_spec(final(book)@, ip_port_spec(ip@, port as nat)) == Some(message.id@),
        forall|k: Seq<char>| k != ip_port_spec(ip@, port as nat) ==> #[trigger] lookup_spec(final(book)@, k) == lookup_spec(old(book)@, k),
{
    let _ = manager.set_online(message.id.as_str());
    book.insert(ip_port(ip, port), message.id.clone());
}

/// An incoming connection closed: the device recorded for its address, if
/// any, is set offline (the record itself is kept).
pub fn on_incoming_closed(manager: &mut DeviceManager, book: &AddressBook, ip_port: &String)
    requires
        old(manager).wf(),
    ensures
        final(manager).wf(),
        match lookup_spec(book@, ip_port@) {
            Some(id) => final(manager)@ == status_updated_rows(old(manager)@, id, DeviceStatus::Offline.code()),
            None => final(manager)@ == old(manager)@,
        },
{
    match book.get(ip_port) {
        Some(id) => {
            let _ = manager.set_offline(id.as_str());
        },
        None => {},
    }
}

/// Law: a device list is never passed on twice by the same device, and the
/// list it passes on names it among the devices to leave out.
pub proof fn law_no_forward_loop(replay: Seq<Seq<char>>, self_id: Seq<char>)
    ensures
        replay.push(self_id).contains(self_id),
{
    assert(replay.push(self_id)[replay.len() as int] == self_id);
}

/// What an incoming websocket message asks for.
#[derive(Debug)]
pub enum IncomingAction {
    /// Hand a clipboard content to the clipboard side.
    ClipboardSync(ClipboardSyncMessage),
    /// Merge and pass on a device list.
    DeviceListSync(DevicesSyncMessage),
    /// Record that the device connected from this address has this id.
    Register(RegisterDeviceMessage, String, u16),
    /// A registration that did not come over an incoming connection.
    RegisterRejected,
    /// A device leaves.
    Unregister(String),
}

/// Whether a text frame is the greeting a client sends on connecting.
pub fn is_handshake(text: &str) -> (b: bool)
    ensures
        b == (text@ == "connect"@),
{
    proof { reveal_strlit("connect"); }
    let t = String::from_str(text);
    let c = String::from_str("connect");
    t == c
}

/// Routes a parsed message: registrations are accepted only from a client
/// connected to this node, by its address.
pub fn dispatch(message: WebSocketMessage, source: MessageSource) -> (a: IncomingAction)
    ensures
        match message {
            WebSocketMessage::ClipboardSync(m) => a == IncomingAction::ClipboardSync(m),
            WebSocketMessage::DeviceListSync(m) => a == IncomingAction::DeviceListSync(m),
            WebSocketMessage::Register(m) => match source {
                MessageSource::IpPort(ip, port) => a == IncomingAction::Register(m, ip, port),
                MessageSource::DeviceId(_) => a is RegisterRejected,
            },
            WebSocketMessage::Unregister(id) => a == IncomingAction::Unregister(id),
        },
{
    match message {
        WebSocketMessage::ClipboardSync(m) => IncomingAction::ClipboardSync(m),
        WebSocketMessage::DeviceListSync(m) => IncomingAction::DeviceListSync(m),
        WebSocketMessage::Register(m) => match source {
            MessageSource::IpPort(ip, port) => IncomingAction::Register(m, ip, port),
            MessageSource::DeviceId(_) => IncomingAction::RegisterRejected,
        },
        WebSocketMessage::Unregister(id) => IncomingAction::Unregister(id),
    }
}

/// The registration a device sends after connecting: for the given device,
/// or else for this node (its id and service port, no ip).
pub fn registration(device: Option<Device>, self_id: String, self_server_port: Option<u16>) -> (m: RegisterDeviceMessage)
    ensures
        match device {
            Some(d) => m.id@ == d.id@ && opt_str_view(m.ip) == opt_str_view(d.ip) && m.server_port == d.server_port,
            None => m.id@ == self_id@ && m.ip is None && m.server_port == self_server_port,
        },
{
    let device = match device {
        Some(d) => d,
        None => Device::new(self_id, None, None, self_server_port),
    };
    RegisterDeviceMessage::new(device.id, device.ip, device.server_port)
}

/// Whether a newly announced device is the configured peer (which has its own
/// connection and is skipped).
pub fn is_configured_peer(device: &Device, peer_addr: &str, peer_port: u16) -> (b: bool)
    requires
        device.ip is Some,
        device.port is Some,
    ensures
        b == (device.ip->0@ == peer_addr@ && device.port->0 == peer_port),
{
    match (&device.ip, device.port) {
        (Some(ip), Some(port)) => {
            let p = String::from_str(peer_addr);
            *ip == p && port == peer_port
        },
        _ => false,
    }
}

/// What the health check does on a tick.
#[derive(Debug, Clone, Copy, PartialEq, Eq, Structural)]
pub enum HealthAction {
    /// The connection is already closed: stop checking.
    Stop,
    /// Three pings went unanswered: mark the connection closed and stop.
    GiveUp,
    /// Send a ping and wait for its pong.
    Ping,
}

/// Unanswered pings after which a connection is given up.
pub open spec fn max_failed_pings() -> u32 {
    3
}

/// The health check's decision on a tick.
pub fn health_check_step(connected: bool, failed_pings: u32) -> (a: HealthAction)
    ensures
        !connected ==> a == HealthAction::Stop,
        connected && failed_pings >= max_failed_pings() ==> a == HealthAction::GiveUp,
        connected && failed_pings < max_failed_pings() ==> a == HealthAction::Ping,
{
    if !connected {
        HealthAction::Stop
    } else if failed_pings >= 3 {
        HealthAction::GiveUp
    } else {
        HealthAction::Ping
    }
}

/// The count of unanswered pings after a ping: a ping that timed out or
/// failed counts; an answered one (matching or not) leaves the count.
pub fn after_ping(failed_pings: u32, ping_failed: bool) -> (n: u32)
    requires
        failed_pings < max_failed_pings(),
    ensures
        n == if ping_failed { failed_pings + 1 } else { failed_pings as int },
{
    if ping_failed { failed_pings + 1 } else { failed_pings }
}

/// Whether a pong answers a ping: its payload is the ping's bytes.
pub fn pong_matches(sent: &Vec<u8>, received: &Vec<u8>) -> (b: bool)
    ensures
        b == (sent@ == received@),
{
    if sent.len() != received.len() {
        return false;
    }
    let mut i: usize = 0;
    while i < sent.len()
        invariant
            sent.len() == received.len(),
            i <= sent.len(),
            forall|k: int| 0 <= k < i ==> sent@[k] == received@[k],
        decreases sent.len() - i,
    {
        if sent[i] != received[i] {
            return false;
        }
        i = i + 1;
    }
    assert(sent@ =~= received@);
    true
}

/// The lowercase form of a text, as `str::to_lowercase` computes it.
pub uninterp spec fn lowercase_spec(s: Seq<char>) -> Seq<char>;

/// `str::to_lowercase`; its Unicode case mapping is named, not restated.
#[verifier::external_body]
fn to_lowercase(s: &str) -> (r: String)
    ensures
        r@ == lowercase_spec(s@),
{
    s.to_lowercase()
}

/// What to do after a failed send of a clipboard message.
#[derive(Debug, Clone, Copy, PartialEq, Eq, Structural)]
pub enum SendRetry {
    /// The connection broke: reconnect and try again.
    Reconnect,
    /// Another failure: give up with the error.
    Fail,
}

/// Decides after a failed send: an I/O error (its lowercase text holds
/// `io error`) means the connection broke and is retried after reconnecting;
/// any other error is final.
pub fn after_send_failure(error_text: &str) -> (r: SendRetry)
    ensures
        r == if has_infix(lowercase_spec(error_text@), "io error"@) { SendRetry::Reconnect } else { SendRetry::Fail },
{
    let lower = to_lowercase(error_text);
    proof { reveal_strlit("io error"); }
    let hay = str_chars(lower.as_str());
    let needle = str_chars("io error");
    if contains_infix(&hay, &needle) { SendRetry::Reconnect } else { SendRetry::Fail }
}

} // verus!
