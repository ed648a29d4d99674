//! The table of known devices, keyed by device id, in insertion order.

use vstd::prelude::*;
use crate::device::{DbDevice, DbDeviceModel};

verus! {

/// Errors the device table reports.
#[derive(Debug, Clone, Copy, PartialEq, Eq, Structural)]
pub enum TableError {
    /// A row with the same id is already present (or appears twice in a batch).
    DuplicateId,
}

/// The first position whose row satisfies `p`, or -1.
pub open spec fn first_where(rows: Seq<DbDeviceModel>, p: spec_fn(DbDeviceModel) -> bool) -> int
    decreases rows.len(),
{
    if rows.len() == 0 {
        -1
    } else {
        let k = first_where(rows.drop_last(), p);
        if k >= 0 {
            k
        } else if p(rows.last()) {
            rows.len() - 1
        } else {
            -1
        }
    }
}

/// The row predicate "has id `id`".
pub open spec fn has_id(id: Seq<char>) -> spec_fn(DbDeviceModel) -> bool {
    |r: DbDeviceModel| r.id == id
}

/// The row predicate "has this ip and this port" (an absent column never matches).
pub open spec fn at_addr(ip: Seq<char>, port: i32) -> spec_fn(DbDeviceModel) -> bool {
    |r: DbDeviceModel| r.ip == Some(ip) && r.port == Some(port)
}

/// Position of the row with id `id`, or -1.
pub open spec fn index_of(rows: Seq<DbDeviceModel>, id: Seq<char>) -> int {
    first_where(rows, has_id(id))
}

pub open spec fn contains_id(rows: Seq<DbDeviceModel>, id: Seq<char>) -> bool {
    exists|i: int| 0 <= i < rows.len() && #[trigger] rows[i].id == id
}

/// No two rows share an id.
pub open spec fn distinct_ids(rows: Seq<DbDeviceModel>) -> bool {
    forall|i: int, j: int| 0 <= i < rows.len() && 0 <= j < rows.len() && i != j ==> #[trigger] rows[i].id != #[trigger] rows[j].id
}

/// The row with id `id`, if any.
pub open spec fn row_by_id(rows: Seq<DbDeviceModel>, id: Seq<char>) -> Option<DbDeviceModel> {
    let k = index_of(rows, id);
    if k >= 0 { Some(rows[k]) } else { None }
}

/// `first_where` finds the first satisfying position, and -1 only when there is none.
pub proof fn lemma_first_where(rows: Seq<DbDeviceModel>, p: spec_fn(DbDeviceModel) -> bool)
    ensures
        -1 <= first_where(rows, p) < rows.len(),
        first_where(rows, p) >= 0 ==> p(rows[first_where(rows, p)]),
        first_where(rows, p) >= 0 ==> forall|i: int| 0 <= i < first_where(rows, p) ==> !p(#[trigger] rows[i]),
        first_where(rows, p) == -1 ==> forall|i: int| 0 <= i < rows.len() ==> !p(#[trigger] rows[i]),
    decreases rows.len(),
{
    if rows.len() > 0 {
        let pre = rows.drop_last();
        lemma_first_where(pre, p);
        let k = first_where(pre, p);
        if k >= 0 {
            assert forall|i: int| 0 <= i < k implies !p(#[trigger] rows[i]) by {
                assert(rows[i] == pre[i]);
            }
        } else if p(rows.last()) {
            assert forall|i: int| 0 <= i < rows.len() - 1 implies !p(#[trigger] rows[i]) by {
                assert(rows[i] == pre[i]);
            }
        } else {
            assert forall|i: int| 0 <= i < rows.len() implies !p(#[trigger] rows[i]) by {
                if i < rows.len() - 1 {
                    assert(rows[i] == pre[i]);
                }
            }
        }
    }
}

/// A position is the result of `first_where` when its row satisfies `p` and no earlier one does.
pub proof fn lemma_first_where_unique(rows: Seq<DbDeviceModel>, p: spec_fn(DbDeviceModel) -> bool, k: int)
    requires
        0 <= k < rows.len(),
        p(rows[k]),
        forall|i: int| 0 <= i < k ==> !p(#[trigger] rows[i]),
    ensures
        first_where(rows, p) == k,
{
    lemma_first_where(rows, p);
}

/// In a table with distinct ids, the row with an id is found where it stands.
pub proof fn lemma_index_of(rows: Seq<DbDeviceModel>, id: Seq<char>)
    requires
        distinct_ids(rows),
    ensures
        -1 <= index_of(rows, id) < rows.len(),
        index_of(rows, id) >= 0 <==> contains_id(rows, id),
        index_of(rows, id) >= 0 ==> rows[index_of(rows, id)].id == id,
        forall|i: int| 0 <= i < rows.len() && #[trigger] rows[i].id == id ==> index_of(rows, id) == i,
{
    lemma_first_where(rows, has_id(id));
    assert forall|i: int| 0 <= i < rows.len() && #[trigger] rows[i].id == id implies index_of(rows, id) == i by {
        lemma_first_where_unique(rows, has_id(id), i);
    }
    if index_of(rows, id) == -1 {
        assert forall|i: int| 0 <= i < rows.len() implies #[trigger] rows[i].id != id by {
            assert(!has_id(id)(rows[i]));
        }
    }
}

/// The rows of the device table.
pub struct DeviceTable {
    rows: Vec<DbDevice>,
}

impl View for DeviceTable {
    type V = Seq<DbDeviceModel>;

    closed spec fn view(&self) -> Seq<DbDeviceModel> {
        self.rows@.map_values(|r: DbDevice| r@)
    }
}

/// A copy of every row.
pub fn copy_rows(rows: &Vec<DbDevice>) -> (r: Vec<DbDevice>)
    ensures
        r@.map_values(|x: DbDevice| x@) == rows@.map_values(|x: DbDevice| x@),
{
    let mut out: Vec<DbDevice> = Vec::new();
    let mut i: usize = 0;
    while i < rows.len()
        invariant
            i <= rows.len(),
            out.len() == i,
            forall|j: int| 0 <= j < i ==> #[trigger] out@[j]@ == rows@[j]@,
        decreases rows.len() - i,
    {
        out.push(rows[i].duplicate());
        i = i + 1;
    }
    assert(out@.map_values(|x: DbDevice| x@) =~= rows@.map_values(|x: DbDevice| x@));
    out
}

/// Position of the row with id `id` in a list of rows, searched from the front.
pub fn find_id(rows: &Vec<DbDevice>, id: &String) -> (r: Option<usize>)
    ensures
        r matches Some(k) ==> k as int == index_of(rows@.map_values(|x: DbDevice| x@), id@),
        r is None ==> index_of(rows@.map_values(|x: DbDevice| x@), id@) == -1,
{
    let ghost v = rows@.map_values(|x: DbDevice| x@);
    proof { lemma_first_where(v, has_id(id@)); }
    let mut i: usize = 0;
    while i < rows.len()
        invariant
            i <= rows.len(),
            v == rows@.map_values(|x: DbDevice| x@),
            forall|k: int| 0 <= k < i ==> !has_id(id@)(#[trigger] v[k]),
        decreases rows.len() - i,
    {
        if rows[i].id == *id {
            proof { lemma_first_where_unique(v, has_id(id@), i as int); }
            return Some(i);
        }
        assert(!has_id(id@)(v[i as int]));
        i = i + 1;
    }
    proof {
        if first_where(v, has_id(id@)) >= 0 {
            let k = first_where(v, has_id(id@));
            assert(has_id(id@)(v[k]));
        }
    }
    None
}

impl DeviceTable {
    /// The table invariant: ids are distinct.
    pub open spec fn wf(&self) -> bool {
        distinct_ids(self@)
    }

    /// An empty table.
    pub fn new() -> (t: DeviceTable)
        ensures
            t.wf(),
            t@ == Seq::<DbDeviceModel>::empty(),
    {
        let t = DeviceTable { rows: Vec::new() };
        assert(t@ =~= Seq::<DbDeviceModel>::empty());
        t
    }

    /// Number of rows.
    pub fn len(&self) -> (n: usize)
        ensures
            n == self@.len(),
    {
        self.rows.len()
    }

    /// Whether a row with the id exists.
    pub fn is_exist(&self, id: &str) -> (b: bool)
        requires
            self.wf(),
        ensures
            b == contains_id(self@, id@),
    {
        let key = id.to_owned();
        proof { lemma_index_of(self@, id@); }
        find_id(&self.rows, &key).is_some()
    }

    /// Adds a row; refused when its id is already present.
    pub fn insert_device(&mut self, device: &DbDevice) -> (r: Result<(), TableError>)
        requires
            old(self).wf(),
        ensures
            final(self).wf(),
            r is Err <==> contains_id(old(self)@, device@.id),
            r is Err ==> final(self)@ == old(self)@,
            r is Ok ==> final(self)@ == old(self)@.push(device@),
    {
        proof { lemma_index_of(self@, device@.id); }
        if find_id(&self.rows, &device.id).is_some() {
            return Err(TableError::DuplicateId);
        }
        let ghost pre = self@;
        self.rows.push(device.duplicate());
        assert(self@ =~= pre.push(device@));
        Ok(())
    }

    /// Adds several rows at once: all of them, or none when one of their ids is
    /// already present or appears twice among them.
    pub fn batch_insert_devices(&mut self, devices: &Vec<DbDevice>) -> (r: Result<(), TableError>)
        requires
            old(self).wf(),
        ensures
            final(self).wf(),
            r is Ok <==> batch_insertable(old(self)@, devices@.map_values(|x: DbDevice| x@)),
            r is Err ==> final(self)@ == old(self)@,
            r is Ok ==> final(self)@ == old(self)@ + devices@.map_values(|x: DbDevice| x@),
    {
        let ghost old_rows = self@;
        let ghost add = devices@.map_values(|x: DbDevice| x@);
        // check first, so that a refusal changes nothing
        let mut i: usize = 0;
        while i < devices.len()
            invariant
                i <= devices.len(),
                self@ == old_rows,
                self.wf(),
                add == devices@.map_values(|x: DbDevice| x@),
                forall|k: int| 0 <= k < i ==> !contains_id(old_rows, #[trigger] add[k].id),
                forall|k: int, l: int| 0 <= k < i && 0 <= l < i && k != l ==> #[trigger] add[k].id != #[trigger] add[l].id,
            decreases devices.len() - i,
        {
            proof {
                lemma_index_of(self@, add[i as int].id);
                assert(add[i as int] == devices@[i as int]@);
            }
            if find_id(&self.rows, &devices[i].id).is_some() {
                return Err(TableError::DuplicateId);
            }
            let mut j: usize = 0;
            while j < i
                invariant
                    j <= i < devices.len(),
                    self@ == old_rows,
                    self.wf(),
                    add == devices@.map_values(|x: DbDevice| x@),
                    forall|l: int| 0 <= l < j ==> #[trigger] add[l].id != add[i as int].id,
                decreases i - j,
            {
                if devices[j].id == devices[i].id {
                    assert(add[j as int] == devices@[j as int]@);
                    assert(add[i as int] == devices@[i as int]@);
                    assert(add[j as int].id == add[i as int].id);
                    assert(!distinct_ids(add));
                    return Err(TableError::DuplicateId);
                }
                j = j + 1;
            }
            i = i + 1;
        }
        assert(distinct_ids(old_rows + add)) by {
            let all = old_rows + add;
            assert forall|a: int, b: int| 0 <= a < all.len() && 0 <= b < all.len() && a != b implies #[trigger] all[a].id != #[trigger] all[b].id by {
                if a >= old_rows.len() && b < old_rows.len() {
                    assert(!contains_id(old_rows, add[a - old_rows.len()].id));
                    assert(all[b] == old_rows[b]);
                } else if b >= old_rows.len() && a < old_rows.len() {
                    assert(!contains_id(old_rows, add[b - old_rows.len()].id));
                    assert(all[a] == old_rows[a]);
                }
            }
        }
        let mut k: usize = 0;
        while k < devices.len()
            invariant
                k <= devices.len(),
                add == devices@.map_values(|x: DbDevice| x@),
                self@ == old_rows + add.take(k as int),
            decreases devices.len() - k,
        {
            let ghost pre = self@;
            self.rows.push(devices[k].duplicate());
            assert(add.take(k + 1) =~= add.take(k as int).push(add[k as int]));
            assert(self@ =~= pre.push(add[k as int]));
            k = k + 1;
        }
        assert(add.take(devices.len() as int) =~= add);
        Ok(())
    }

    /// The row with the id, if any.
    pub fn get_device(&self, id: &str) -> (r: Option<DbDevice>)
        requires
            self.wf(),
        ensures
            match r {
                Some(row) => row_by_id(self@, id@) == Some(row@),
                None => row_by_id(self@, id@) is None,
            },
    {
        let key = id.to_owned();
        proof { lemma_index_of(self@, id@); }
        match find_id(&self.rows, &key) {
            Some(k) => Some(self.rows[k].duplicate()),
            None => None,
        }
    }

    /// The first row with the given ip and port.
    pub fn get_device_by_ip_and_port(&self, ip: &str, port: i32) -> (r: Option<DbDevice>)
        ensures
            match r {
                Some(row) => first_where(self@, at_addr(ip@, port)) >= 0
                    && row@ == self@[first_where(self@, at_addr(ip@, port))],
                None => first_where(self@, at_addr(ip@, port)) == -1,
            },
    {
        let key = ip.to_owned();
        let ghost v = self@;
        proof { lemma_first_where(v, at_addr(ip@, port)); }
        let mut i: usize = 0;
        while i < self.rows.len()
            invariant
                i <= self.rows.len(),
                v == self@,
                key@ == ip@,
                forall|k: int| 0 <= k < i ==> !at_addr(ip@, port)(#[trigger] v[k]),
            decreases self.rows.len() - i,
        {
            let row = &self.rows[i];
            assert(v[i as int] == self.rows@[i as int]@);
            let ip_hit = match &row.ip {
                Some(a) => *a == key,
                None => false,
            };
            let port_hit = match row.port {
                Some(p) => p == port,
                None => false,
            };
            let hit = ip_hit && port_hit;
            assert(hit == at_addr(ip@, port)(v[i as int]));
            if hit {
                proof { lemma_first_where_unique(v, at_addr(ip@, port), i as int); }
                return Some(row.duplicate());
            }
            assert(!at_addr(ip@, port)(v[i as int]));
            i = i + 1;
        }
        proof {
            if first_where(v, at_addr(ip@, port)) >= 0 {
                let k = first_where(v, at_addr(ip@, port));
                assert(at_addr(ip@, port)(v[k]));
            }
        }
        None
    }

    /// Replaces every column but the id of the row with `device`'s id; no row, no change.
    pub fn update_device(&mut self, device: &DbDevice)
        requires
            old(self).wf(),
        ensures
            final(self).wf(),
            final(self)@ == updated_rows(old(self)@, device@),
    {
        proof { lemma_index_of(self@, device@.id); }
        match find_id(&self.rows, &device.id) {
            Some(k) => {
                let ghost pre = self@;
                self.rows.set(k, device.duplicate());
                assert(self@ =~= pre.update(k as int, device@));
                assert(distinct_ids(self@)) by {
                    assert forall|a: int, b: int| 0 <= a < self@.len() && 0 <= b < self@.len() && a != b implies #[trigger] self@[a].id != #[trigger] self@[b].id by {
                        assert(self@[a].id == pre[a].id);
                        assert(self@[b].id == pre[b].id);
                    }
                }
            },
            None => {},
        }
    }

    /// Every row, in table order.
    pub fn get_all_devices(&self) -> (r: Vec<DbDevice>)
        ensures
            r@.map_values(|x: DbDevice| x@) == self@,
    {
        copy_rows(&self.rows)
    }

    /// Removes the row with the id; no row, no change.
    pub fn delete_device(&mut self, id: &str)
        requires
            old(self).wf(),
        ensures
            final(self).wf(),
            final(self)@ == deleted_rows(old(self)@, id@),
    {
        let key = id.to_owned();
        proof { lemma_index_of(self@, id@); }
        match find_id(&self.rows, &key) {
            Some(k) => {
                let ghost pre = self@;
                self.rows.remove(k);
                assert(self@ =~= pre.remove(k as int));
                assert(distinct_ids(self@)) by {
                    assert forall|a: int, b: int| 0 <= a < self@.len() && 0 <= b < self@.len() && a != b implies #[trigger] self@[a].id != #[trigger] self@[b].id by {
                        let a0 = if a < k { a } else { a + 1 };
                        let b0 = if b < k { b } else { b + 1 };
                        assert(self@[a] == pre[a0]);
                        assert(self@[b] == pre[b0]);
                    }
                }
            },
            None => {},
        }
    }

    /// Removes every row.
    pub fn clear_devices(&mut self)
        ensures
            final(self).wf(),
            final(self)@ == Seq::<DbDeviceModel>::empty(),
    {
        self.rows = Vec::new();
        assert(self@ =~= Seq::<DbDeviceModel>::empty());
    }

    /// Sets the status column of the row with the id; no row, no change.
    pub fn update_device_status(&mut self, id: &str, status: i32)
        requires
            old(self).wf(),
        ensures
            final(self).wf(),
            final(self)@ == status_updated_rows(old(self)@, id@, status),
    {
        let key = id.to_owned();
        proof { lemma_index_of(self@, id@); }
        match find_id(&self.rows, &key) {
            Some(k) => {
                let ghost pre = self@;
                let mut row = self.rows[k].duplicate();
                row.status = status;
                self.rows.set(k, row);
                assert(self@ =~= pre.update(k as int, DbDeviceModel { status, ..pre[k as int] }));
                assert(distinct_ids(self@)) by {
                    assert forall|a: int, b: int| 0 <= a < self@.len() && 0 <= b < self@.len() && a != b implies #[trigger] self@[a].id != #[trigger] self@[b].id by {
                        assert(self@[a].id == pre[a].id);
                        assert(self@[b].id == pre[b].id);
                    }
                }
            },
            None => {},
        }
    }
}

/// Whether a batch can be added: none of its ids is present, and none repeats.
pub open spec fn batch_insertable(rows: Seq<DbDeviceModel>, add: Seq<DbDeviceModel>) -> bool {
    &&& forall|k: int| 0 <= k < add.len() ==> !contains_id(rows, #[trigger] add[k].id)
    &&& distinct_ids(add)
}

/// The rows after replacing the row with `device`'s id by `device`.
pub open spec fn updated_rows(rows: Seq<DbDeviceModel>, device: DbDeviceModel) -> Seq<DbDeviceModel> {
    let k = index_of(rows, device.id);
    if k >= 0 { rows.update(k, device) } else { rows }
}

/// The rows after removing the row with id `id`.
pub open spec fn deleted_rows(rows: Seq<DbDeviceModel>, id: Seq<char>) -> Seq<DbDeviceModel> {
    let k = index_of(rows, id);
    if k >= 0 { rows.remove(k) } else { rows }
}

/// The rows after setting the status of the row with id `id`.
pub open spec fn status_updated_rows(rows: Seq<DbDeviceModel>, id: Seq<char>, status: i32) -> Seq<DbDeviceModel> {
    let k = index_of(rows, id);
    if k >= 0 { rows.update(k, DbDeviceModel { status, ..rows[k] }) } else { rows }
}

} // verus!
