//! Decisions of the WebDAV-backed clipboard: where an upload goes, which
//! stored file is newest or oldest, and when a polled file is taken.

use vstd::prelude::*;
use crate::message::Timestamp;

verus! {

/// The path an upload is stored under: `<device_id>_<key>.bin` inside `dir`
/// (directly after the slash when `dir` is the root `/`).
pub open spec fn upload_path_spec(dir: Seq<char>, device_id: Seq<char>, key: Seq<char>) -> Seq<char> {
    let file = device_id + "_"@ + key + ".bin"@;
    if dir == "/"@ { "/"@ + file } else { dir + "/"@ + file }
}

/// The path an upload is stored under.
pub fn upload_path(dir: &str, device_id: &str, key: &str) -> (p: String)
    ensures
        p@ == upload_path_spec(dir@, device_id@, key@),
{
    proof {
        reveal_strlit("_");
        reveal_strlit(".bin");
        reveal_strlit("/");
    }
    let root = String::from_str("/");
    let d = String::from_str(dir);
    let mut p = if d == root { String::from_str("/") } else {
        let mut q = String::from_str(dir);
        q.append("/");
        q
    };
    p.append(device_id);
    p.append("_");
    p.append(key);
    p.append(".bin");
    p
}

/// Whether `a` is later than `b`.
pub open spec fn later(a: Timestamp, b: Timestamp) -> bool {
    a.secs > b.secs || (a.secs == b.secs && a.nanos > b.nanos)
}

/// Whether `a` is later than `b`.
pub fn is_later(a: Timestamp, b: Timestamp) -> (r: bool)
    ensures
        r == later(a, b),
{
    a.secs > b.secs || (a.secs == b.secs && a.nanos > b.nanos)
}

/// The position `max_by_key` picks among the files of a listing (entries with
/// a modification time; other entries are not files): a latest one, and the
/// last of several equally late ones.
pub open spec fn is_latest_pick(entries: Seq<Option<Timestamp>>, k: int) -> bool {
    &&& 0 <= k < entries.len()
    &&& entries[k] is Some
    &&& forall|j: int| 0 <= j < entries.len() && entries[j] is Some ==> !later(#[trigger] entries[j]->0, entries[k]->0)
    &&& forall|j: int| k < j < entries.len() && entries[j] is Some ==> later(entries[k]->0, #[trigger] entries[j]->0)
}

/// The position `min_by_key` picks: an earliest file, the first of several
/// equally early ones.
pub open spec fn is_oldest_pick(entries: Seq<Option<Timestamp>>, k: int) -> bool {
    &&& 0 <= k < entries.len()
    &&& entries[k] is Some
    &&& forall|j: int| 0 <= j < entries.len() && entries[j] is Some ==> !later(entries[k]->0, #[trigger] entries[j]->0)
    &&& forall|j: int| 0 <= j < k && entries[j] is Some ==> later(#[trigger] entries[j]->0, entries[k]->0)
}

pub open spec fn has_file(entries: Seq<Option<Timestamp>>) -> bool {
    exists|j: int| 0 <= j < entries.len() && #[trigger] entries[j] is Some
}

/// The latest file of a listing; `None` when it holds no file.
pub fn latest_file(entries: &Vec<Option<Timestamp>>) -> (r: Option<usize>)
    ensures
        r is None <==> !has_file(entries@),
        r matches Some(k) ==> is_latest_pick(entries@, k as int),
{
    let mut best: Option<usize> = None;
    let mut i: usize = 0;
    while i < entries.len()
        invariant
            i <= entries.len(),
            best is None <==> forall|j: int| 0 <= j < i ==> !(#[trigger] entries@[j] is Some),
            best matches Some(k) ==> {
                &&& k < i
                &&& entries@[k as int] is Some
                &&& forall|j: int| 0 <= j < i && entries@[j] is Some ==> !later(#[trigger] entries@[j]->0, entries@[k as int]->0)
                &&& forall|j: int| k < j < i && entries@[j] is Some ==> later(entries@[k as int]->0, #[trigger] entries@[j]->0)
            },
        decreases entries.len() - i,
    {
        match entries[i] {
            Some(t) => {
                match best {
                    Some(k) => {
                        let bt = entries[k].unwrap();
                        if !is_later(bt, t) {
                            best = Some(i);
                        }
                    },
                    None => {
                        best = Some(i);
                    },
                }
            },
            None => {},
        }
        i = i + 1;
    }
    proof {
        if best is None {
            assert forall|j: int| 0 <= j < entries.len() implies !(#[trigger] entries@[j] is Some) by {}
        } else {
            let k = best->0;
            assert(entries@[k as int] is Some);
        }
    }
    best
}

/// The oldest file of a listing; `None` when it holds no file.
pub fn oldest_file(entries: &Vec<Option<Timestamp>>) -> (r: Option<usize>)
    ensures
        r is None <==> !has_file(entries@),
        r matches Some(k) ==> is_oldest_pick(entries@, k as int),
{
    let mut best: Option<usize> = None;
    let mut i: usize = 0;
    while i < entries.len()
        invariant
            i <= entries.len(),
            best is None <==> forall|j: int| 0 <= j < i ==> !(#[trigger] entries@[j] is Some),
            best matches Some(k) ==> {
                &&& k < i
                &&& entries@[k as int] is Some
                &&& forall|j: int| 0 <= j < i && entries@[j] is Some ==> !later(entries@[k as int]->0, #[trigger] entries@[j]->0)
                &&& forall|j: int| 0 <= j < k && entries@[j] is Some ==> later(#[trigger] entries@[j]->0, entries@[k as int]->0)
            },
        decreases entries.len() - i,
    {
        match entries[i] {
            Some(t) => {
                match best {
                    Some(k) => {
                        let bt = entries[k].unwrap();
                        if is_later(bt, t) {
                            best = Some(i);
                        }
                    },
                    None => {
                        best = Some(i);
                    },
                }
            },
            None => {},
        }
        i = i + 1;
    }
    proof {
        if best is Some {
            let k = best->0;
            assert(entries@[k as int] is Some);
        }
    }
    best
}

/// What a poll of the remote clipboard does before listing.
#[derive(Debug, Clone, Copy, PartialEq, Eq, Structural)]
pub enum PollGate {
    /// Pulling is paused: wait and ask again.
    Wait,
    /// The sync is not running: fail.
    NotRunning,
    /// The caller's timeout has passed: fail.
    TimedOut,
    /// List the remote directory.
    Fetch,
}

/// Decides the first step of a poll: pausing has priority over the running flag, which has priority over the timeout.
pub fn poll_gate(paused: bool, running: bool, timed_out: bool) -> (g: PollGate)
    ensures
        paused ==> g == PollGate::Wait,
        !paused && !running ==> g == PollGate::NotRunning,
        !paused && running && timed_out ==> g == PollGate::TimedOut,
        !paused && running && !timed_out ==> g == PollGate::Fetch,
{
    if paused {
        PollGate::Wait
    } else if !running {
        PollGate::NotRunning
    } else if timed_out {
        PollGate::TimedOut
    } else {
        PollGate::Fetch
    }
}

/// What a poll does with the newest remote file.
#[derive(Debug, Clone, Copy, PartialEq, Eq, Structural)]
pub enum PollDecision {
    /// The file comes from this device: wait and poll again.
    SkipOwn,
    /// The file is newer than the last one taken: download it.
    Download,
    /// Nothing new: wait and poll again.
    NoChange,
}

/// The decision on the newest remote file, as `poll_decide` takes it.
pub open spec fn poll_decision(file_device_id: Seq<char>, self_device_id: Seq<char>, modified: Timestamp, last_taken: Option<Timestamp>) -> PollDecision {
    if file_device_id == self_device_id {
        PollDecision::SkipOwn
    } else {
        match last_taken {
            None => PollDecision::Download,
            Some(l) => if later(modified, l) { PollDecision::Download } else { PollDecision::NoChange },
        }
    }
}

/// Decides on the newest remote file: skip this device's own uploads; take a
/// file when none was taken yet or when it is later than the last one taken.
pub fn poll_decide(file_device_id: &str, self_device_id: &str, modified: Timestamp, last_taken: Option<Timestamp>) -> (d: PollDecision)
    ensures
        d == poll_decision(file_device_id@, self_device_id@, modified, last_taken),
{
    let a = String::from_str(file_device_id);
    let b = String::from_str(self_device_id);
    if a == b {
        return PollDecision::SkipOwn;
    }
    match last_taken {
        None => PollDecision::Download,
        Some(l) => if is_later(modified, l) { PollDecision::Download } else { PollDecision::NoChange },
    }
}

/// One poll over the newest remote file: the decision, and the last-taken
/// time the poll leaves. Taking a file moves the last-taken time to the
/// file's time (once its download has succeeded; a failed download leaves
/// `last_taken`); skipping an own file or finding nothing new leaves it as it was.
pub fn poll_step(
    last_taken: Option<Timestamp>,
    file_device_id: &str,
    self_device_id: &str,
    modified: Timestamp,
) -> (r: (PollDecision, Option<Timestamp>))
    ensures
        r.0 == poll_decision(file_device_id@, self_device_id@, modified, last_taken),
        r.0 == PollDecision::Download ==> r.1 == Some(modified),
        r.0 != PollDecision::Download ==> r.1 == last_taken,
{
    let d = poll_decide(file_device_id, self_device_id, modified, last_taken);
    match d {
        PollDecision::Download => (d, Some(modified)),
        _ => (d, last_taken),
    }
}

/// Errors of the remote sync's run state.
#[derive(Debug, Clone, Copy, PartialEq, Eq, Structural)]
pub enum RunStateError {
    /// `start` was called on a running sync.
    AlreadyRunning,
}

/// Whether the remote sync runs, and whether pulling is paused.
#[derive(Debug, Clone, Copy, PartialEq, Eq, Structural)]
pub struct SyncRunState {
    pub running: bool,
    pub paused: bool,
}

impl SyncRunState {
    /// Not running, not paused.
    pub fn new() -> (s: Self)
        ensures
            s == (SyncRunState { running: false, paused: false }),
    {
        SyncRunState { running: false, paused: false }
    }

    /// Starts; refused when already running.
    pub fn start(&mut self) -> (r: Result<(), RunStateError>)
        ensures
            old(self).running ==> r == Err::<(), RunStateError>(RunStateError::AlreadyRunning) && *final(self) == *old(self),
            !old(self).running ==> r is Ok && *final(self) == (SyncRunState { running: true, ..*old(self) }),
    {
        if self.running {
            return Err(RunStateError::AlreadyRunning);
        }
        self.running = true;
        Ok(())
    }

    pub fn stop(&mut self)
        ensures
            *final(self) == (SyncRunState { running: false, ..*old(self) }),
    {
        self.running = false;
    }

    pub fn pause(&mut self)
        ensures
            *final(self) == (SyncRunState { paused: true, ..*old(self) }),
    {
        self.paused = true;
    }

    pub fn resume(&mut self)
        ensures
            *final(self) == (SyncRunState { paused: false, ..*old(self) }),
    {
        self.paused = false;
    }
}

/// Law: once a file is taken, polling finds nothing new in the same file:
/// with the file's own time as the last one taken, the decision is to wait,
/// and a file of this device is never downloaded.
pub proof fn law_poll_takes_once(file_device_id: Seq<char>, self_device_id: Seq<char>, modified: Timestamp)
    ensures
        file_device_id != self_device_id ==> poll_decision(file_device_id, self_device_id, modified, Some(modified)) == PollDecision::NoChange,
        forall|last: Option<Timestamp>| poll_decision(self_device_id, self_device_id, modified, last) != PollDecision::Download,
{
}

/// Law: a listing has one latest pick and one oldest pick at most, so the
/// positions `latest_file` and `oldest_file` return are determined by the listing.
pub proof fn law_picks_unique(entries: Seq<Option<Timestamp>>, k1: int, k2: int)
    ensures
        is_latest_pick(entries, k1) && is_latest_pick(entries, k2) ==> k1 == k2,
        is_oldest_pick(entries, k1) && is_oldest_pick(entries, k2) ==> k1 == k2,
{
    if is_latest_pick(entries, k1) && is_latest_pick(entries, k2) && k1 != k2 {
        if k1 < k2 {
            assert(later(entries[k1]->0, entries[k2]->0));
            assert(!later(entries[k1]->0, entries[k2]->0));
        } else {
            assert(later(entries[k2]->0, entries[k1]->0));
            assert(!later(entries[k2]->0, entries[k1]->0));
        }
    }
    if is_oldest_pick(entries, k1) && is_oldest_pick(entries, k2) && k1 != k2 {
        if k1 < k2 {
            assert(later(entries[k1]->0, entries[k2]->0));
            assert(!later(entries[k1]->0, entries[k2]->0));
        } else {
            assert(later(entries[k2]->0, entries[k1]->0));
            assert(!later(entries[k2]->0, entries[k1]->0));
        }
    }
}

} // verus!
