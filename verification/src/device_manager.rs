//! The registry of known devices: the operations the rest of the node uses,
//! over the device table.

use vstd::prelude::*;
use crate::device::{
    law_device_row_roundtrip,
    DbDevice, DbDeviceModel, Device, DeviceModel, DeviceStatus, device_of_row,
    row_of,
};
use crate::device_table::{
    DeviceTable, at_addr, contains_id, deleted_rows, distinct_ids, find_id,
    first_where, index_of, lemma_index_of, row_by_id, status_updated_rows, updated_rows,
};

verus! {

/// Errors of the device registry.
#[derive(Debug, Clone, Copy, PartialEq, Eq, Structural)]
pub enum DeviceError {
    /// The device is not in the registry.
    NotFound,
    /// Two rows would share an id.
    DuplicateId,
}

/// The current time in whole seconds since the Unix epoch, from `chrono::Utc::now`.
/// Nothing is promised of the value: it is the clock's reading.
#[verifier::external_body]
fn now_timestamp() -> i64 {
    chrono::Utc::now().timestamp()
}

/// The devices read back from rows, in order.
pub open spec fn devices_of(rows: Seq<DbDeviceModel>) -> Seq<DeviceModel> {
    rows.map_values(|r: DbDeviceModel| device_of_row(r))
}

/// The devices read back from the rows that satisfy `keep`, in order.
pub open spec fn select_devices(rows: Seq<DbDeviceModel>, keep: spec_fn(DeviceModel) -> bool) -> Seq<DeviceModel>
    decreases rows.len(),
{
    if rows.len() == 0 {
        Seq::empty()
    } else {
        let p = select_devices(rows.drop_last(), keep);
        let d = device_of_row(rows.last());
        if keep(d) { p.push(d) } else { p }
    }
}

/// The predicate "is offline".
pub open spec fn is_offline() -> spec_fn(DeviceModel) -> bool {
    |d: DeviceModel| d.status == DeviceStatus::Offline
}

/// The predicate "is not the local device".
pub open spec fn is_remote() -> spec_fn(DeviceModel) -> bool {
    |d: DeviceModel| !d.self_device
}

/// The rows after storing `row`: it replaces the row with its id, or is appended.
pub open spec fn upsert_rows(rows: Seq<DbDeviceModel>, row: DbDeviceModel) -> Seq<DbDeviceModel> {
    if contains_id(rows, row.id) { updated_rows(rows, row) } else { rows.push(row) }
}

/// The row `add` stores for a device at time `now`.
pub open spec fn added_row(d: DeviceModel, now: i64) -> DbDeviceModel {
    DbDeviceModel { updated_at: now as i32, ..row_of(d) }
}

/// The rows a merge adds: the incoming devices whose id the table does not
/// hold yet, in their order.
pub open spec fn merge_new_rows(old: Seq<DbDeviceModel>, devices: Seq<DeviceModel>) -> Seq<DbDeviceModel>
    decreases devices.len(),
{
    if devices.len() == 0 {
        Seq::empty()
    } else {
        let p = merge_new_rows(old, devices.drop_last());
        let d = devices.last();
        if contains_id(old, d.id) { p } else { p.push(row_of(d)) }
    }
}

pub open spec fn time_or_zero(t: Option<i32>) -> int {
    match t { Some(v) => v as int, None => 0 }
}

/// Whether an incoming record of an already known device replaces its row:
/// its timestamp is newer than the stored one.
pub open spec fn merge_replaces(old: Seq<DbDeviceModel>, d: DeviceModel) -> bool {
    let k = index_of(old, d.id);
    &&& k >= 0
    &&& time_or_zero(d.updated_at) > old[k].updated_at
}

/// The rows after applying, in order, the replacements a merge decides on.
pub open spec fn merge_updates(rows: Seq<DbDeviceModel>, old: Seq<DbDeviceModel>, devices: Seq<DeviceModel>) -> Seq<DbDeviceModel>
    decreases devices.len(),
{
    if devices.len() == 0 {
        rows
    } else {
        let r = merge_updates(rows, old, devices.drop_last());
        let d = devices.last();
        if merge_replaces(old, d) { updated_rows(r, row_of(d)) } else { r }
    }
}

/// The device registry.
pub struct DeviceManager {
    table: DeviceTable,
}

impl View for DeviceManager {
    type V = Seq<DbDeviceModel>;

    closed spec fn view(&self) -> Seq<DbDeviceModel> {
        self.table@
    }
}

/// Reads every row back as a device.
fn devices_from_rows(rows: &Vec<DbDevice>) -> (r: Vec<Device>)
    ensures
        r@.map_values(|d: Device| d@) == devices_of(rows@.map_values(|x: DbDevice| x@)),
{
    let mut out: Vec<Device> = Vec::new();
    let mut i: usize = 0;
    while i < rows.len()
        invariant
            i <= rows.len(),
            out.len() == i,
            forall|j: int| 0 <= j < i ==> #[trigger] out@[j]@ == device_of_row(rows@[j]@),
        decreases rows.len() - i,
    {
        out.push(Device::from_db(&rows[i]));
        i = i + 1;
    }
    assert(out@.map_values(|d: Device| d@) =~= devices_of(rows@.map_values(|x: DbDevice| x@)));
    out
}

/// Reads back the rows whose device is (or is not) offline / local.
fn select_from_rows(rows: &Vec<DbDevice>, offline_only: bool) -> (r: Vec<Device>)
    ensures
        r@.map_values(|d: Device| d@) == select_devices(
            rows@.map_values(|x: DbDevice| x@),
            if offline_only { is_offline() } else { is_remote() },
        ),
{
    let ghost keep = if offline_only { is_offline() } else { is_remote() };
    let ghost v = rows@.map_values(|x: DbDevice| x@);
    let mut out: Vec<Device> = Vec::new();
    let mut i: usize = 0;
    while i < rows.len()
        invariant
            i <= rows.len(),
            v == rows@.map_values(|x: DbDevice| x@),
            keep == (if offline_only { is_offline() } else { is_remote() }),
            out@.map_values(|d: Device| d@) == select_devices(v.take(i as int), keep),
        decreases rows.len() - i,
    {
        let d = Device::from_db(&rows[i]);
        proof {
            assert(v.take(i + 1).drop_last() =~= v.take(i as int));
            assert(v.take(i + 1).last() == rows@[i as int]@);
        }
        let take = if offline_only {
            d.status == DeviceStatus::Offline
        } else {
            !d.self_device
        };
        assert(take == keep(d@));
        let ghost pre = out@;
        if take {
            out.push(d);
            assert(out@.map_values(|x: Device| x@) =~= pre.map_values(|x: Device| x@).push(d@));
        }
        i = i + 1;
    }
    assert(v.take(rows.len() as int) =~= v);
    out
}

impl DeviceManager {
    /// The registry invariant: device ids are distinct.
    pub open spec fn wf(&self) -> bool {
        distinct_ids(self@)
    }

    /// An empty registry.
    pub fn new() -> (m: Self)
        ensures
            m.wf(),
            m@ == Seq::<DbDeviceModel>::empty(),
    {
        DeviceManager { table: DeviceTable::new() }
    }

    /// Marks a known device as the local one, storing the given record for it.
    pub fn set_self_device(&mut self, device: &Device) -> (r: Result<(), DeviceError>)
        requires
            old(self).wf(),
        ensures
            final(self).wf(),
            r is Ok <==> contains_id(old(self)@, device@.id),
            r is Ok ==> final(self)@ == updated_rows(old(self)@, self_row(device@)),
            r is Err ==> r == Err::<(), DeviceError>(DeviceError::NotFound) && final(self)@ == old(self)@,
    {
        let mut db_device = DbDevice::from_device(device);
        if self.table.is_exist(device.id.as_str()) {
            db_device.self_device = true;
            self.table.update_device(&db_device);
            Ok(())
        } else {
            Err(DeviceError::NotFound)
        }
    }

    /// Sets a device online.
    pub fn set_online(&mut self, device_id: &str) -> (r: Result<(), DeviceError>)
        requires
            old(self).wf(),
        ensures
            final(self).wf(),
            r is Ok,
            final(self)@ == status_updated_rows(old(self)@, device_id@, DeviceStatus::Online.code()),
    {
        self.table.update_device_status(device_id, DeviceStatus::Online.to_i32());
        Ok(())
    }

    /// Sets a device offline.
    pub fn set_offline(&mut self, device_id: &str) -> (r: Result<(), DeviceError>)
        requires
            old(self).wf(),
        ensures
            final(self).wf(),
            r is Ok,
            final(self)@ == status_updated_rows(old(self)@, device_id@, DeviceStatus::Offline.code()),
    {
        self.table.update_device_status(device_id, DeviceStatus::Offline.to_i32());
        Ok(())
    }

    /// Adds a device, stamped with the current time; a device already known
    /// is overwritten.
    pub fn add(&mut self, device: Device) -> (r: Result<(), DeviceError>)
        requires
            old(self).wf(),
        ensures
            final(self).wf(),
            r is Ok,
            exists|now: i64| final(self)@ == upsert_rows(old(self)@, #[trigger] added_row(device@, now)),
    {
        let now = now_timestamp();
        self.add_at(device, now)
    }

    /// Adds a device stamped with the time `now`; a device already known is
    /// overwritten.
    pub fn add_at(&mut self, device: Device, now: i64) -> (r: Result<(), DeviceError>)
        requires
            old(self).wf(),
        ensures
            final(self).wf(),
            r is Ok,
            final(self)@ == upsert_rows(old(self)@, added_row(device@, now)),
    {
        let mut db_device = DbDevice::from_device(&device);
        db_device.updated_at = now as i32;
        assert(db_device@ == added_row(device@, now));
        if self.table.is_exist(device.id.as_str()) {
            self.table.update_device(&db_device);
        } else {
            let res = self.table.insert_device(&db_device);
            assert(res is Ok);
        }
        Ok(())
    }

    /// Merges a device list received from a peer. Devices not known yet are
    /// added (all of them, or none if two of them share an id); a known device
    /// whose incoming record is newer than the stored one is replaced by it.
    /// Returns the devices added, to be announced.
    pub fn merge(&mut self, devices: &Vec<Device>) -> (r: Result<Vec<Device>, DeviceError>)
        requires
            old(self).wf(),
        ensures
            final(self).wf(),
            r is Ok <==> distinct_ids(merge_new_rows(old(self)@, devices@.map_values(|d: Device| d@))),
            r is Err ==> r == Err::<Vec<Device>, DeviceError>(DeviceError::DuplicateId) && final(self)@ == old(self)@,
            r matches Ok(added) ==> {
                let devs = devices@.map_values(|d: Device| d@);
                let new_rows = merge_new_rows(old(self)@, devs);
                &&& final(self)@ == merge_updates(old(self)@ + new_rows, old(self)@, devs)
                &&& added@.map_values(|d: Device| d@) == devices_of(new_rows)
            },
    {
        let ghost old_rows = self@;
        let ghost devs = devices@.map_values(|d: Device| d@);
        let exist = self.table.get_all_devices();
        let mut new_devices: Vec<DbDevice> = Vec::new();
        let mut i: usize = 0;
        assert(devs.take(0) =~= Seq::<DeviceModel>::empty());
        while i < devices.len()
            invariant
                i <= devices.len(),
                devs == devices@.map_values(|d: Device| d@),
                exist@.map_values(|x: DbDevice| x@) == old_rows,
                distinct_ids(old_rows),
                new_devices@.map_values(|x: DbDevice| x@) == merge_new_rows(old_rows, devs.take(i as int)),
            decreases devices.len() - i,
        {
            proof {
                assert(devs.take(i + 1).drop_last() =~= devs.take(i as int));
                assert(devs.take(i + 1).last() == devices@[i as int]@);
                lemma_index_of(old_rows, devices@[i as int]@.id);
            }
            let ghost pre = new_devices@;
            if find_id(&exist, &devices[i].id).is_none() {
                new_devices.push(DbDevice::from_device(&devices[i]));
                assert(new_devices@.map_values(|x: DbDevice| x@) =~= pre.map_values(|x: DbDevice| x@).push(row_of(devices@[i as int]@)));
            }
            i = i + 1;
        }
        assert(devs.take(devices.len() as int) =~= devs);
        let ghost new_rows = merge_new_rows(old_rows, devs);
        proof { lemma_merge_new_rows_fresh(old_rows, devs); }
        match self.table.batch_insert_devices(&new_devices) {
            Ok(()) => {},
            Err(_) => {
                return Err(DeviceError::DuplicateId);
            },
        }
        let added = devices_from_rows(&new_devices);
        let mut j: usize = 0;
        assert(devs.take(0) =~= Seq::<DeviceModel>::empty());
        while j < devices.len()
            invariant
                j <= devices.len(),
                devs == devices@.map_values(|d: Device| d@),
                exist@.map_values(|x: DbDevice| x@) == old_rows,
                distinct_ids(old_rows),
                self.wf(),
                self@ == merge_updates(old_rows + new_rows, old_rows, devs.take(j as int)),
            decreases devices.len() - j,
        {
            let d = &devices[j];
            proof {
                assert(devs.take(j + 1).drop_last() =~= devs.take(j as int));
                assert(devs.take(j + 1).last() == d@);
                lemma_index_of(old_rows, d@.id);
            }
            match find_id(&exist, &d.id) {
                Some(k) => {
                    let e = &exist[k];
                    assert(e@ == old_rows[k as int]);
                    let upd: i32 = match d.updated_at { Some(t) => t, None => 0 };
                    if upd > e.updated_at {
                        assert(merge_replaces(old_rows, d@));
                        self.table.update_device(&DbDevice::from_device(d));
                    } else {
                        assert(!merge_replaces(old_rows, d@));
                    }
                },
                None => {
                    assert(!merge_replaces(old_rows, d@));
                },
            }
            j = j + 1;
        }
        assert(devs.take(devices.len() as int) =~= devs);
        Ok(added)
    }

    /// The offline devices, in table order.
    pub fn get_offline_devices(&self) -> (r: Result<Vec<Device>, DeviceError>)
        ensures
            r matches Ok(v) && v@.map_values(|d: Device| d@) == select_devices(self@, is_offline()),
    {
        let rows = self.table.get_all_devices();
        Ok(select_from_rows(&rows, true))
    }

    /// Removes a device.
    pub fn remove(&mut self, device_id: &str) -> (r: Result<(), DeviceError>)
        requires
            old(self).wf(),
        ensures
            final(self).wf(),
            r is Ok,
            final(self)@ == deleted_rows(old(self)@, device_id@),
    {
        self.table.delete_device(device_id);
        Ok(())
    }

    /// The device with the id, if known.
    pub fn get(&self, device_id: &str) -> (r: Result<Option<Device>, DeviceError>)
        requires
            self.wf(),
        ensures
            r matches Ok(o) && match o {
                Some(d) => row_by_id(self@, device_id@) matches Some(row) && d@ == device_of_row(row),
                None => row_by_id(self@, device_id@) is None,
            },
    {
        match self.table.get_device(device_id) {
            Some(row) => Ok(Some(Device::from_db(&row))),
            None => Ok(None),
        }
    }

    /// Whether the device is known.
    pub fn has(&self, device_id: &str) -> (r: Result<bool, DeviceError>)
        requires
            self.wf(),
        ensures
            r == Ok::<bool, DeviceError>(contains_id(self@, device_id@)),
    {
        Ok(self.table.is_exist(device_id))
    }

    /// Every known device, in table order.
    pub fn get_all_devices(&self) -> (r: Result<Vec<Device>, DeviceError>)
        ensures
            r matches Ok(v) && v@.map_values(|d: Device| d@) == devices_of(self@),
    {
        let rows = self.table.get_all_devices();
        Ok(devices_from_rows(&rows))
    }

    /// Every known device but the local one, in table order.
    pub fn get_all_devices_except_self(&self) -> (r: Result<Vec<Device>, DeviceError>)
        ensures
            r matches Ok(v) && v@.map_values(|d: Device| d@) == select_devices(self@, is_remote()),
    {
        let rows = self.table.get_all_devices();
        Ok(select_from_rows(&rows, false))
    }

    /// Forgets every device.
    pub fn clear(&mut self) -> (r: Result<(), DeviceError>)
        ensures
            final(self).wf(),
            r is Ok,
            final(self)@ == Seq::<DbDeviceModel>::empty(),
    {
        self.table.clear_devices();
        Ok(())
    }

    /// The first device with the given ip and port.
    pub fn get_device_by_ip_and_port(&self, ip: &str, port: u16) -> (r: Result<Option<Device>, DeviceError>)
        ensures
            r matches Ok(o) && match o {
                Some(d) => first_where(self@, at_addr(ip@, port as i32)) >= 0
                    && d@ == device_of_row(self@[first_where(self@, at_addr(ip@, port as i32))]),
                None => first_where(self@, at_addr(ip@, port as i32)) == -1,
            },
    {
        match self.table.get_device_by_ip_and_port(ip, port as i32) {
            Some(row) => Ok(Some(Device::from_db(&row))),
            None => Ok(None),
        }
    }
}

/// The rows a merge adds hold ids the table does not.
pub proof fn lemma_merge_new_rows_fresh(old: Seq<DbDeviceModel>, devices: Seq<DeviceModel>)
    ensures
        forall|k: int| 0 <= k < merge_new_rows(old, devices).len() ==> !contains_id(old, #[trigger] merge_new_rows(old, devices)[k].id),
    decreases devices.len(),
{
    if devices.len() > 0 {
        lemma_merge_new_rows_fresh(old, devices.drop_last());
    }
}

/// Replacing a row keeps the length and the id at every position.
pub proof fn lemma_updated_rows_ids(rows: Seq<DbDeviceModel>, row: DbDeviceModel)
    requires
        distinct_ids(rows),
    ensures
        updated_rows(rows, row).len() == rows.len(),
        forall|i: int| 0 <= i < rows.len() ==> #[trigger] updated_rows(rows, row)[i].id == rows[i].id,
{
    lemma_index_of(rows, row.id);
}

/// The replacements of a merge keep the length and the id at every position.
pub proof fn lemma_merge_updates_ids(rows: Seq<DbDeviceModel>, old: Seq<DbDeviceModel>, devices: Seq<DeviceModel>)
    requires
        distinct_ids(rows),
    ensures
        merge_updates(rows, old, devices).len() == rows.len(),
        forall|i: int| 0 <= i < rows.len() ==> #[trigger] merge_updates(rows, old, devices)[i].id == rows[i].id,
    decreases devices.len(),
{
    if devices.len() > 0 {
        lemma_merge_updates_ids(rows, old, devices.drop_last());
        let r = merge_updates(rows, old, devices.drop_last());
        assert(distinct_ids(r)) by {
            assert forall|a: int, b: int| 0 <= a < r.len() && 0 <= b < r.len() && a != b implies #[trigger] r[a].id != #[trigger] r[b].id by {
                assert(r[a].id == rows[a].id);
                assert(r[b].id == rows[b].id);
            }
        }
        lemma_updated_rows_ids(r, row_of(devices.last()));
    }
}

/// The rows a merge adds are exactly the incoming devices that were unknown.
pub proof fn lemma_merge_new_rows_cover(old: Seq<DbDeviceModel>, devices: Seq<DeviceModel>, i: int)
    requires
        0 <= i < devices.len(),
        !contains_id(old, devices[i].id),
    ensures
        contains_id(merge_new_rows(old, devices), devices[i].id),
    decreases devices.len(),
{
    let p = merge_new_rows(old, devices.drop_last());
    if i < devices.len() - 1 {
        assert(devices.drop_last()[i] == devices[i]);
        lemma_merge_new_rows_cover(old, devices.drop_last(), i);
        let k = choose|k: int| 0 <= k < p.len() && #[trigger] p[k].id == devices[i].id;
        assert(merge_new_rows(old, devices)[k] == p[k]);
    } else {
        let n = merge_new_rows(old, devices);
        assert(n[n.len() - 1].id == devices[i].id);
    }
}

/// Law: after `add`, the registry holds exactly the added record under the device's id,
/// and ids stay distinct.
pub proof fn law_add_then_get(rows: Seq<DbDeviceModel>, d: DeviceModel, now: i64)
    requires
        distinct_ids(rows),
    ensures
        distinct_ids(upsert_rows(rows, added_row(d, now))),
        row_by_id(upsert_rows(rows, added_row(d, now)), d.id) == Some(added_row(d, now)),
{
    let row = added_row(d, now);
    lemma_index_of(rows, d.id);
    if contains_id(rows, d.id) {
        lemma_updated_rows_ids(rows, row);
        let r = upsert_rows(rows, row);
        assert(distinct_ids(r)) by {
            assert forall|a: int, b: int| 0 <= a < r.len() && 0 <= b < r.len() && a != b implies #[trigger] r[a].id != #[trigger] r[b].id by {
                assert(r[a].id == rows[a].id);
                assert(r[b].id == rows[b].id);
            }
        }
        lemma_index_of(r, d.id);
        assert(r[index_of(rows, d.id)].id == d.id);
    } else {
        let r = rows.push(row);
        assert(distinct_ids(r)) by {
            assert forall|a: int, b: int| 0 <= a < r.len() && 0 <= b < r.len() && a != b implies #[trigger] r[a].id != #[trigger] r[b].id by {
                if a < rows.len() && b < rows.len() {
                    assert(r[a] == rows[a] && r[b] == rows[b]);
                } else if a < rows.len() {
                    assert(r[a] == rows[a]);
                } else {
                    assert(r[b] == rows[b]);
                }
            }
        }
        lemma_index_of(r, d.id);
        assert(r[rows.len() as int].id == d.id);
    }
}

/// Law: after `remove`, the device is no longer found.
pub proof fn law_remove_then_get(rows: Seq<DbDeviceModel>, id: Seq<char>)
    requires
        distinct_ids(rows),
    ensures
        row_by_id(deleted_rows(rows, id), id) is None,
        !contains_id(deleted_rows(rows, id), id),
{
    lemma_index_of(rows, id);
    let r = deleted_rows(rows, id);
    if contains_id(rows, id) {
        let k = index_of(rows, id);
        assert forall|i: int| 0 <= i < r.len() implies #[trigger] r[i].id != id by {
            if i < k {
                assert(r[i] == rows[i]);
            } else {
                assert(r[i] == rows[i + 1]);
            }
        }
    }
    lemma_first_where_absent(r, id);
}

/// A table without the id yields no row for it.
pub proof fn lemma_first_where_absent(rows: Seq<DbDeviceModel>, id: Seq<char>)
    requires
        !contains_id(rows, id),
    ensures
        row_by_id(rows, id) is None,
{
    crate::device_table::lemma_first_where(rows, crate::device_table::has_id(id));
    if index_of(rows, id) >= 0 {
        assert(rows[index_of(rows, id)].id == id);
    }
}

/// Law: a device is known exactly when looking it up finds it.
pub proof fn law_has_iff_get(rows: Seq<DbDeviceModel>, id: Seq<char>)
    requires
        distinct_ids(rows),
    ensures
        contains_id(rows, id) <==> row_by_id(rows, id) is Some,
{
    lemma_index_of(rows, id);
}

/// Law: a successful merge forgets no device, and afterwards every incoming
/// device is known.
pub proof fn law_merge_covers(old: Seq<DbDeviceModel>, devices: Seq<DeviceModel>, id: Seq<char>)
    requires
        distinct_ids(old),
        distinct_ids(merge_new_rows(old, devices)),
        contains_id(old, id) || exists|i: int| 0 <= i < devices.len() && #[trigger] devices[i].id == id,
    ensures
        contains_id(merge_updates(old + merge_new_rows(old, devices), old, devices), id),
{
    let n = merge_new_rows(old, devices);
    let all = old + n;
    lemma_merge_new_rows_fresh(old, devices);
    assert(distinct_ids(all)) by {
        assert forall|a: int, b: int| 0 <= a < all.len() && 0 <= b < all.len() && a != b implies #[trigger] all[a].id != #[trigger] all[b].id by {
            if a >= old.len() && b < old.len() {
                assert(!contains_id(old, n[a - old.len()].id));
                assert(all[b] == old[b]);
            } else if b >= old.len() && a < old.len() {
                assert(!contains_id(old, n[b - old.len()].id));
                assert(all[a] == old[a]);
            }
        }
    }
    lemma_merge_updates_ids(all, old, devices);
    let r = merge_updates(all, old, devices);
    if contains_id(old, id) {
        let k = choose|k: int| 0 <= k < old.len() && #[trigger] old[k].id == id;
        assert(all[k] == old[k]);
        assert(r[k].id == id);
    } else {
        let i = choose|i: int| 0 <= i < devices.len() && #[trigger] devices[i].id == id;
        lemma_merge_new_rows_cover(old, devices, i);
        let k = choose|k: int| 0 <= k < n.len() && #[trigger] n[k].id == id;
        assert(all[old.len() + k] == n[k]);
        assert(r[old.len() + k].id == id);
    }
}

/// Law: merging a list a second time adds no device.
pub proof fn law_merge_twice_adds_nothing(rows: Seq<DbDeviceModel>, devices: Seq<DeviceModel>)
    requires
        forall|i: int| 0 <= i < devices.len() ==> contains_id(rows, #[trigger] devices[i].id),
    ensures
        merge_new_rows(rows, devices) == Seq::<DbDeviceModel>::empty(),
    decreases devices.len(),
{
    if devices.len() > 0 {
        assert forall|i: int| 0 <= i < devices.drop_last().len() implies contains_id(rows, #[trigger] devices.drop_last()[i].id) by {
            assert(devices.drop_last()[i] == devices[i]);
        }
        law_merge_twice_adds_nothing(rows, devices.drop_last());
        assert(contains_id(rows, devices[devices.len() - 1].id));
    }
}

/// Law: the devices other than the local one never include the local one,
/// and the offline devices are all offline.
pub proof fn law_selection(rows: Seq<DbDeviceModel>)
    ensures
        forall|i: int| 0 <= i < select_devices(rows, is_remote()).len() ==> !(#[trigger] select_devices(rows, is_remote())[i]).self_device,
        forall|i: int| 0 <= i < select_devices(rows, is_offline()).len() ==> (#[trigger] select_devices(rows, is_offline())[i]).status == DeviceStatus::Offline,
    decreases rows.len(),
{
    if rows.len() > 0 {
        law_selection(rows.drop_last());
        let p = select_devices(rows.drop_last(), is_remote());
        let q = select_devices(rows.drop_last(), is_offline());
        assert forall|i: int| 0 <= i < select_devices(rows, is_remote()).len() implies !(#[trigger] select_devices(rows, is_remote())[i]).self_device by {
            if i < p.len() { assert(select_devices(rows, is_remote())[i] == p[i]); }
        }
        assert forall|i: int| 0 <= i < select_devices(rows, is_offline()).len() implies (#[trigger] select_devices(rows, is_offline())[i]).status == DeviceStatus::Offline by {
            if i < q.len() { assert(select_devices(rows, is_offline())[i] == q[i]); }
        }
    }
}

/// Law: after a status change (`set_online`, `set_offline`) a known device
/// reads back with the new status and all its other fields, every other
/// device reads back unchanged, ids stay distinct, and an unknown id changes
/// nothing.
pub proof fn law_status_then_get(rows: Seq<DbDeviceModel>, id: Seq<char>, status: i32, other: Seq<char>)
    requires
        distinct_ids(rows),
    ensures
        distinct_ids(status_updated_rows(rows, id, status)),
        match row_by_id(rows, id) {
            Some(r) => row_by_id(status_updated_rows(rows, id, status), id) == Some(DbDeviceModel { status, ..r }),
            None => status_updated_rows(rows, id, status) == rows,
        },
        other != id ==> row_by_id(status_updated_rows(rows, id, status), other) == row_by_id(rows, other),
{
    lemma_index_of(rows, id);
    lemma_index_of(rows, other);
    let r2 = status_updated_rows(rows, id, status);
    assert forall|i: int| 0 <= i < rows.len() implies #[trigger] r2[i].id == rows[i].id by {}
    assert(distinct_ids(r2)) by {
        assert forall|a: int, b: int| 0 <= a < r2.len() && 0 <= b < r2.len() && a != b implies #[trigger] r2[a].id != #[trigger] r2[b].id by {
            assert(r2[a].id == rows[a].id);
            assert(r2[b].id == rows[b].id);
        }
    }
    lemma_index_of(r2, id);
    lemma_index_of(r2, other);
    if index_of(rows, id) >= 0 {
        assert(r2[index_of(rows, id)].id == id);
    }
    if other != id && index_of(rows, other) >= 0 {
        assert(r2[index_of(rows, other)].id == other);
    }
}

/// Every device a selection yields is read back from a row of the table and
/// satisfies the predicate.
pub proof fn lemma_select_from(rows: Seq<DbDeviceModel>, keep: spec_fn(DeviceModel) -> bool, i: int)
    requires
        0 <= i < select_devices(rows, keep).len(),
    ensures
        keep(select_devices(rows, keep)[i]),
        exists|j: int| 0 <= j < rows.len() && select_devices(rows, keep)[i] == device_of_row(#[trigger] rows[j]),
    decreases rows.len(),
{
    let p = select_devices(rows.drop_last(), keep);
    if i < p.len() {
        lemma_select_from(rows.drop_last(), keep, i);
        let j = choose|j: int| 0 <= j < rows.drop_last().len() && p[i] == device_of_row(#[trigger] rows.drop_last()[j]);
        assert(rows.drop_last()[j] == rows[j]);
        assert(select_devices(rows, keep)[i] == p[i]);
    } else {
        assert(select_devices(rows, keep)[i] == device_of_row(rows[rows.len() - 1]));
    }
}

/// The row `set_self_device` stores for a device.
pub open spec fn self_row(d: DeviceModel) -> DbDeviceModel {
    DbDeviceModel { self_device: true, ..row_of(d) }
}

/// Law: once a device is marked as the local one, the devices other than the
/// local one no longer include it.
pub proof fn law_self_device_not_remote(rows: Seq<DbDeviceModel>, d: DeviceModel)
    requires
        distinct_ids(rows),
        contains_id(rows, d.id),
    ensures
        forall|i: int| 0 <= i < select_devices(updated_rows(rows, self_row(d)), is_remote()).len()
            ==> (#[trigger] select_devices(updated_rows(rows, self_row(d)), is_remote())[i]).id != d.id,
{
    let row = self_row(d);
    let r2 = updated_rows(rows, row);
    lemma_index_of(rows, d.id);
    let k = index_of(rows, d.id);
    assert forall|i: int| 0 <= i < select_devices(r2, is_remote()).len()
        implies (#[trigger] select_devices(r2, is_remote())[i]).id != d.id by {
        lemma_select_from(r2, is_remote(), i);
        let j = choose|j: int| 0 <= j < r2.len() && select_devices(r2, is_remote())[i] == device_of_row(#[trigger] r2[j]);
        if j == k {
            assert(r2[j] == row);
        } else {
            assert(r2[j] == rows[j]);
            assert(rows[j].id != rows[k].id);
        }
    }
}

/// Whether the devices of a list have pairwise distinct ids.
pub open spec fn distinct_device_ids(ds: Seq<DeviceModel>) -> bool {
    forall|a: int, b: int| 0 <= a < ds.len() && 0 <= b < ds.len() && a != b ==> #[trigger] ds[a].id != #[trigger] ds[b].id
}

/// Every row a merge adds is the row of an incoming device the table did not hold.
pub proof fn lemma_merge_new_rows_from(old: Seq<DbDeviceModel>, ds: Seq<DeviceModel>, k: int)
    requires
        0 <= k < merge_new_rows(old, ds).len(),
    ensures
        exists|j: int| 0 <= j < ds.len() && merge_new_rows(old, ds)[k] == row_of(#[trigger] ds[j]) && !contains_id(old, ds[j].id),
    decreases ds.len(),
{
    let p = merge_new_rows(old, ds.drop_last());
    if k < p.len() {
        lemma_merge_new_rows_from(old, ds.drop_last(), k);
        let j = choose|j: int| 0 <= j < ds.drop_last().len() && p[k] == row_of(#[trigger] ds.drop_last()[j]) && !contains_id(old, ds.drop_last()[j].id);
        assert(ds.drop_last()[j] == ds[j]);
        assert(merge_new_rows(old, ds)[k] == p[k]);
    } else {
        let j = ds.len() - 1;
        assert(merge_new_rows(old, ds)[k] == row_of(ds[j]));
    }
}

/// The rows a merge adds have distinct ids when the incoming ids are distinct.
pub proof fn lemma_merge_new_rows_distinct(old: Seq<DbDeviceModel>, ds: Seq<DeviceModel>)
    requires
        distinct_device_ids(ds),
    ensures
        distinct_ids(merge_new_rows(old, ds)),
    decreases ds.len(),
{
    if ds.len() > 0 {
        let pre = ds.drop_last();
        assert(distinct_device_ids(pre)) by {
            assert forall|a: int, b: int| 0 <= a < pre.len() && 0 <= b < pre.len() && a != b implies #[trigger] pre[a].id != #[trigger] pre[b].id by {
                assert(pre[a] == ds[a] && pre[b] == ds[b]);
            }
        }
        lemma_merge_new_rows_distinct(old, pre);
        let p = merge_new_rows(old, pre);
        let d = ds.last();
        let n = merge_new_rows(old, ds);
        if !contains_id(old, d.id) {
            assert forall|k: int| 0 <= k < p.len() implies #[trigger] p[k].id != d.id by {
                lemma_merge_new_rows_from(old, pre, k);
                let j = choose|j: int| 0 <= j < pre.len() && p[k] == row_of(#[trigger] pre[j]) && !contains_id(old, pre[j].id);
                assert(pre[j] == ds[j]);
                assert(ds[j].id != ds[ds.len() - 1].id);
            }
            assert(distinct_ids(n)) by {
                assert forall|a: int, b: int| 0 <= a < n.len() && 0 <= b < n.len() && a != b implies #[trigger] n[a].id != #[trigger] n[b].id by {
                    if a < p.len() && b < p.len() {
                        assert(n[a] == p[a] && n[b] == p[b]);
                    } else if a < p.len() {
                        assert(n[a] == p[a]);
                    } else {
                        assert(n[b] == p[b]);
                    }
                }
            }
        }
    }
}

/// The stored rows followed by the rows a merge adds have distinct ids.
pub proof fn lemma_merged_rows_distinct(old: Seq<DbDeviceModel>, ds: Seq<DeviceModel>)
    requires
        distinct_ids(old),
        distinct_ids(merge_new_rows(old, ds)),
    ensures
        distinct_ids(old + merge_new_rows(old, ds)),
{
    let n = merge_new_rows(old, ds);
    let all = old + n;
    lemma_merge_new_rows_fresh(old, ds);
    assert forall|a: int, b: int| 0 <= a < all.len() && 0 <= b < all.len() && a != b implies #[trigger] all[a].id != #[trigger] all[b].id by {
        if a >= old.len() && b < old.len() {
            assert(!contains_id(old, n[a - old.len()].id));
            assert(all[b] == old[b]);
        } else if b >= old.len() && a < old.len() {
            assert(!contains_id(old, n[b - old.len()].id));
            assert(all[a] == old[a]);
        }
    }
}

/// When no incoming device replaces its row, the replacements change nothing.
pub proof fn lemma_merge_updates_none(rows: Seq<DbDeviceModel>, old: Seq<DbDeviceModel>, ds: Seq<DeviceModel>)
    requires
        forall|i: int| 0 <= i < ds.len() ==> !merge_replaces(old, #[trigger] ds[i]),
    ensures
        merge_updates(rows, old, ds) == rows,
    decreases ds.len(),
{
    if ds.len() > 0 {
        assert forall|i: int| 0 <= i < ds.drop_last().len() implies !merge_replaces(old, #[trigger] ds.drop_last()[i]) by {
            assert(ds.drop_last()[i] == ds[i]);
        }
        lemma_merge_updates_none(rows, old, ds.drop_last());
        assert(!merge_replaces(old, ds[ds.len() - 1]));
    }
}

/// What the replacements of a merge leave at one position: the row of the
/// incoming device with that id when it replaces, the row as it was otherwise.
pub proof fn lemma_merge_update_at(rows: Seq<DbDeviceModel>, old: Seq<DbDeviceModel>, ds: Seq<DeviceModel>, p: int)
    requires
        distinct_ids(rows),
        distinct_device_ids(ds),
        0 <= p < rows.len(),
    ensures
        (forall|j: int| 0 <= j < ds.len() && #[trigger] ds[j].id == rows[p].id ==> !merge_replaces(old, ds[j]))
            ==> merge_updates(rows, old, ds)[p] == rows[p],
        forall|j: int| 0 <= j < ds.len() && #[trigger] ds[j].id == rows[p].id && merge_replaces(old, ds[j])
            ==> merge_updates(rows, old, ds)[p] == row_of(ds[j]),
    decreases ds.len(),
{
    if ds.len() > 0 {
        let pre = ds.drop_last();
        assert(distinct_device_ids(pre)) by {
            assert forall|a: int, b: int| 0 <= a < pre.len() && 0 <= b < pre.len() && a != b implies #[trigger] pre[a].id != #[trigger] pre[b].id by {
                assert(pre[a] == ds[a] && pre[b] == ds[b]);
            }
        }
        lemma_merge_update_at(rows, old, pre, p);
        lemma_merge_updates_ids(rows, old, pre);
        let r = merge_updates(rows, old, pre);
        let last = ds.len() - 1;
        let d = ds[last];
        assert(distinct_ids(r)) by {
            assert forall|a: int, b: int| 0 <= a < r.len() && 0 <= b < r.len() && a != b implies #[trigger] r[a].id != #[trigger] r[b].id by {
                assert(r[a].id == rows[a].id);
                assert(r[b].id == rows[b].id);
            }
        }
        lemma_index_of(r, d.id);
        assert(r[p].id == rows[p].id);
        assert forall|j: int| 0 <= j < pre.len() implies #[trigger] pre[j] == ds[j] by {}
        if (forall|j: int| 0 <= j < ds.len() && #[trigger] ds[j].id == rows[p].id ==> !merge_replaces(old, ds[j])) {
            assert forall|j: int| 0 <= j < pre.len() && #[trigger] pre[j].id == rows[p].id implies !merge_replaces(old, pre[j]) by {
                assert(ds[j].id == rows[p].id);
            }
            if merge_replaces(old, d) {
                assert(d.id != rows[p].id);
                if index_of(r, d.id) >= 0 {
                    assert(index_of(r, d.id) != p);
                }
            }
        }
        assert forall|j: int| 0 <= j < ds.len() && #[trigger] ds[j].id == rows[p].id && merge_replaces(old, ds[j])
            implies merge_updates(rows, old, ds)[p] == row_of(ds[j]) by {
            if j == last {
                assert(index_of(r, d.id) == p);
            } else {
                assert(pre[j] == ds[j]);
                assert(ds[j].id != d.id);
                if merge_replaces(old, d) && index_of(r, d.id) >= 0 {
                    assert(r[index_of(r, d.id)].id == d.id);
                    assert(index_of(r, d.id) != p);
                }
            }
        }
    }
}

/// Law: merging the same device list a second time (ids distinct) succeeds,
/// adds no device (so nothing is announced), and leaves the rows exactly as
/// the first merge left them.
pub proof fn law_merge_idempotent(old: Seq<DbDeviceModel>, ds: Seq<DeviceModel>)
    requires
        distinct_ids(old),
        distinct_device_ids(ds),
    ensures
        distinct_ids(merge_new_rows(old, ds)),
        ({
            let rows1 = merge_updates(old + merge_new_rows(old, ds), old, ds);
            &&& distinct_ids(rows1)
            &&& merge_new_rows(rows1, ds) == Seq::<DbDeviceModel>::empty()
            &&& merge_updates(rows1 + merge_new_rows(rows1, ds), rows1, ds) == rows1
        }),
{
    lemma_merge_new_rows_distinct(old, ds);
    let n = merge_new_rows(old, ds);
    lemma_merged_rows_distinct(old, ds);
    let all = old + n;
    lemma_merge_updates_ids(all, old, ds);
    let rows1 = merge_updates(all, old, ds);
    assert(distinct_ids(rows1)) by {
        assert forall|a: int, b: int| 0 <= a < rows1.len() && 0 <= b < rows1.len() && a != b implies #[trigger] rows1[a].id != #[trigger] rows1[b].id by {
            assert(rows1[a].id == all[a].id);
            assert(rows1[b].id == all[b].id);
        }
    }
    assert forall|i: int| 0 <= i < ds.len() implies contains_id(rows1, #[trigger] ds[i].id) by {
        law_merge_covers(old, ds, ds[i].id);
    }
    law_merge_twice_adds_nothing(rows1, ds);
    assert forall|i: int| 0 <= i < ds.len() implies !merge_replaces(rows1, #[trigger] ds[i]) by {
        let d = ds[i];
        lemma_index_of(rows1, d.id);
        let p = index_of(rows1, d.id);
        assert(all[p].id == d.id);
        lemma_merge_update_at(all, old, ds, p);
        if merge_replaces(old, d) {
            assert(rows1[p] == row_of(d));
        } else {
            assert forall|j: int| 0 <= j < ds.len() && #[trigger] ds[j].id == all[p].id implies !merge_replaces(old, ds[j]) by {
                if j != i {
                    assert(ds[j].id != ds[i].id);
                }
            }
            assert(rows1[p] == all[p]);
            if p < old.len() {
                assert(all[p] == old[p]);
                lemma_index_of(old, d.id);
                assert(index_of(old, d.id) == p);
            } else {
                assert(all[p] == n[p - old.len()]);
                lemma_merge_new_rows_from(old, ds, p - old.len());
                let j = choose|j: int| 0 <= j < ds.len() && n[p - old.len()] == row_of(#[trigger] ds[j]) && !contains_id(old, ds[j].id);
                if j != i {
                    assert(ds[j].id != ds[i].id);
                }
                assert(rows1[p] == row_of(d));
            }
        }
    }
    lemma_merge_updates_none(rows1, rows1, ds);
    assert(rows1 + merge_new_rows(rows1, ds) =~= rows1);
}

/// A selection keeps every row whose device satisfies the predicate.
pub proof fn lemma_select_complete(rows: Seq<DbDeviceModel>, keep: spec_fn(DeviceModel) -> bool, j: int)
    requires
        0 <= j < rows.len(),
        keep(device_of_row(rows[j])),
    ensures
        select_devices(rows, keep).contains(device_of_row(rows[j])),
    decreases rows.len(),
{
    let p = select_devices(rows.drop_last(), keep);
    if j == rows.len() - 1 {
        assert(select_devices(rows, keep) == p.push(device_of_row(rows[j])));
        assert(select_devices(rows, keep)[p.len() as int] == device_of_row(rows[j]));
    } else {
        assert(rows.drop_last()[j] == rows[j]);
        lemma_select_complete(rows.drop_last(), keep, j);
        let k = choose|k: int| 0 <= k < p.len() && p[k] == device_of_row(rows[j]);
        assert(select_devices(rows, keep)[k] == p[k]);
    }
}

/// Law: the devices other than the local one are every device whose row is
/// not marked local, whatever its status; the offline devices are every
/// device stored with the offline status code. Nothing else is left out.
pub proof fn law_selection_complete(rows: Seq<DbDeviceModel>)
    ensures
        forall|j: int| 0 <= j < rows.len() && !(#[trigger] rows[j]).self_device
            ==> select_devices(rows, is_remote()).contains(device_of_row(rows[j])),
        forall|j: int| 0 <= j < rows.len() && (#[trigger] rows[j]).status == DeviceStatus::Offline.code()
            ==> select_devices(rows, is_offline()).contains(device_of_row(rows[j])),
{
    assert forall|j: int| 0 <= j < rows.len() && !(#[trigger] rows[j]).self_device
        implies select_devices(rows, is_remote()).contains(device_of_row(rows[j])) by {
        lemma_select_complete(rows, is_remote(), j);
    }
    assert forall|j: int| 0 <= j < rows.len() && (#[trigger] rows[j]).status == DeviceStatus::Offline.code()
        implies select_devices(rows, is_offline()).contains(device_of_row(rows[j])) by {
        lemma_select_complete(rows, is_offline(), j);
    }
}

/// Replacing the row at the position of its id keeps ids distinct.
pub proof fn lemma_update_distinct(rows: Seq<DbDeviceModel>, k: int, row: DbDeviceModel)
    requires
        distinct_ids(rows),
        0 <= k < rows.len(),
        rows[k].id == row.id,
    ensures
        distinct_ids(rows.update(k, row)),
{
    let r2 = rows.update(k, row);
    assert forall|a: int, b: int| 0 <= a < r2.len() && 0 <= b < r2.len() && a != b implies #[trigger] r2[a].id != #[trigger] r2[b].id by {
        assert(r2[a].id == rows[a].id);
        assert(r2[b].id == rows[b].id);
    }
}

/// Replacing the row at the position of its id leaves every other id's row.
pub proof fn lemma_update_keeps_others(rows: Seq<DbDeviceModel>, k: int, row: DbDeviceModel, other: Seq<char>)
    requires
        distinct_ids(rows),
        0 <= k < rows.len(),
        rows[k].id == row.id,
        other != row.id,
    ensures
        row_by_id(rows.update(k, row), other) == row_by_id(rows, other),
{
    let r2 = rows.update(k, row);
    lemma_update_distinct(rows, k, row);
    lemma_index_of(rows, other);
    lemma_index_of(r2, other);
    if index_of(rows, other) >= 0 {
        assert(r2[index_of(rows, other)].id == other);
    }
    if index_of(r2, other) >= 0 {
        assert(rows[index_of(r2, other)].id == other);
    }
}

/// Law: `add` stores the device as given, only its update time replaced by
/// the time of the call: reading it back gives every field of the device
/// (ip, ports, status, local flag) and that time. Every other device is left
/// as it was, and the registry grows by one exactly when the id was new.
pub proof fn law_add_stores_device(rows: Seq<DbDeviceModel>, d: DeviceModel, now: i64, other: Seq<char>)
    requires
        distinct_ids(rows),
    ensures
        row_by_id(upsert_rows(rows, added_row(d, now)), d.id) matches Some(r)
            && device_of_row(r) == (DeviceModel { updated_at: Some(now as i32), ..d }),
        other != d.id ==> row_by_id(upsert_rows(rows, added_row(d, now)), other) == row_by_id(rows, other),
        upsert_rows(rows, added_row(d, now)).len() == if contains_id(rows, d.id) { rows.len() } else { rows.len() + 1 },
{
    law_add_then_get(rows, d, now);
    law_device_row_roundtrip(d);
    let row = added_row(d, now);
    lemma_index_of(rows, d.id);
    if other != d.id {
        if contains_id(rows, d.id) {
            lemma_update_keeps_others(rows, index_of(rows, d.id), row, other);
        } else {
            let r2 = rows.push(row);
            lemma_index_of(rows, other);
            lemma_index_of(r2, other);
            if index_of(rows, other) >= 0 {
                assert(r2[index_of(rows, other)].id == other);
            }
            if index_of(r2, other) >= 0 {
                assert(index_of(r2, other) != rows.len());
                assert(rows[index_of(r2, other)].id == other);
            }
        }
    }
}

/// Law: marking a known device as the local one stores the given record of
/// it with the local flag set: reading it back gives the device's ip, ports
/// and status as given, the flag set, and its update time (0 when it has
/// none). Every other device is left as it was, and the count is unchanged.
pub proof fn law_self_device_stores_record(rows: Seq<DbDeviceModel>, d: DeviceModel, other: Seq<char>)
    requires
        distinct_ids(rows),
        contains_id(rows, d.id),
    ensures
        row_by_id(updated_rows(rows, self_row(d)), d.id) matches Some(r)
            && device_of_row(r) == (DeviceModel {
                self_device: true,
                updated_at: Some(match d.updated_at { Some(t) => t, None => 0 }),
                ..d
            }),
        other != d.id ==> row_by_id(updated_rows(rows, self_row(d)), other) == row_by_id(rows, other),
        updated_rows(rows, self_row(d)).len() == rows.len(),
{
    law_device_row_roundtrip(d);
    lemma_index_of(rows, d.id);
    let k = index_of(rows, d.id);
    let r2 = updated_rows(rows, self_row(d));
    assert(r2[k] == self_row(d));
    lemma_update_distinct(rows, k, self_row(d));
    lemma_index_of(r2, d.id);
    assert(r2[k].id == d.id);
    if other != d.id {
        lemma_update_keeps_others(rows, k, self_row(d), other);
    }
}

/// Law: removing a device removes that device only: every other device is
/// left as it was, and the registry shrinks by one exactly when the id was
/// known (nothing changes otherwise).
pub proof fn law_remove_keeps_others(rows: Seq<DbDeviceModel>, id: Seq<char>, other: Seq<char>)
    requires
        distinct_ids(rows),
    ensures
        other != id ==> row_by_id(deleted_rows(rows, id), other) == row_by_id(rows, other),
        deleted_rows(rows, id).len() == if contains_id(rows, id) { rows.len() - 1 } else { rows.len() as int },
        !contains_id(rows, id) ==> deleted_rows(rows, id) == rows,
{
    lemma_index_of(rows, id);
    if contains_id(rows, id) && other != id {
        let k = index_of(rows, id);
        let r2 = deleted_rows(rows, id);
        assert(r2 == rows.remove(k));
        assert forall|i: int| 0 <= i < r2.len() implies #[trigger] r2[i] == rows[if i < k { i } else { i + 1 }] by {}
        assert(distinct_ids(r2)) by {
            assert forall|a: int, b: int| 0 <= a < r2.len() && 0 <= b < r2.len() && a != b implies #[trigger] r2[a].id != #[trigger] r2[b].id by {
                assert(r2[a] == rows[if a < k { a } else { a + 1 }]);
                assert(r2[b] == rows[if b < k { b } else { b + 1 }]);
            }
        }
        lemma_index_of(rows, other);
        lemma_index_of(r2, other);
        if index_of(rows, other) >= 0 {
            let k2 = index_of(rows, other);
            assert(k2 != k);
            let p = if k2 < k { k2 } else { k2 - 1 };
            assert(r2[p] == rows[k2]);
        }
        if index_of(r2, other) >= 0 {
            let p = index_of(r2, other);
            assert(r2[p] == rows[if p < k { p } else { p + 1 }]);
        }
    }
}

} // verus!
