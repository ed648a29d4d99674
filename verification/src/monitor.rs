//! State of the local clipboard watcher and of the input-activity monitor.

use vstd::prelude::*;

verus! {

/// Time after its own write during which a clipboard change is attributed to
/// that write, in milliseconds.
pub open spec fn write_cooldown_ms() -> u64 {
    500
}

/// What the watcher does with a clipboard change.
#[derive(Debug, Clone, Copy, PartialEq, Eq, Structural)]
pub enum ChangeAction {
    /// The change is the echo of this node's own write: ignore it.
    SkipSelfWrite,
    /// Read the clipboard and hand the content on.
    Forward,
}

/// What the watcher does next.
#[derive(Debug, Clone, Copy, PartialEq, Eq, Structural)]
pub enum WatchStep {
    /// Monitoring was stopped: end the loop.
    Stop,
    /// Monitoring is paused: wait until resumed.
    WaitResume,
    /// Wait for the next clipboard change.
    WaitChange,
}

/// The watcher's flags and the time of the node's last own write (ms on a
/// monotonic clock).
#[derive(Debug, Clone, Copy, PartialEq, Eq, Structural)]
pub struct WatchState {
    pub paused: bool,
    pub stopped: bool,
    pub self_write: bool,
    pub last_write_ms: u64,
}

/// Milliseconds from `earlier` to `later`, 0 when `later` is not after it.
pub open spec fn elapsed_ms(earlier: u64, later: u64) -> u64 {
    if later >= earlier { (later - earlier) as u64 } else { 0 }
}

impl WatchState {
    /// A running, unpaused watcher whose last write is at time `now_ms`.
    pub fn new(now_ms: u64) -> (s: Self)
        ensures
            s == (WatchState { paused: false, stopped: false, self_write: false, last_write_ms: now_ms }),
    {
        WatchState { paused: false, stopped: false, self_write: false, last_write_ms: now_ms }
    }

    pub fn pause(&mut self)
        ensures
            *final(self) == (WatchState { paused: true, ..*old(self) }),
    {
        self.paused = true;
    }

    pub fn resume(&mut self)
        ensures
            *final(self) == (WatchState { paused: false, ..*old(self) }),
    {
        self.paused = false;
    }

    pub fn stop(&mut self)
        ensures
            *final(self) == (WatchState { stopped: true, ..*old(self) }),
    {
        self.stopped = true;
    }

    /// Records that the node itself wrote the clipboard at `now_ms` (whether or
    /// not the write succeeded).
    pub fn note_self_write(&mut self, now_ms: u64)
        ensures
            *final(self) == (WatchState { self_write: true, last_write_ms: now_ms, ..*old(self) }),
    {
        self.self_write = true;
        self.last_write_ms = now_ms;
    }

    /// The next step of the watch loop: stopping wins over pausing.
    pub fn next_step(&self) -> (s: WatchStep)
        ensures
            self.stopped ==> s == WatchStep::Stop,
            !self.stopped && self.paused ==> s == WatchStep::WaitResume,
            !self.stopped && !self.paused ==> s == WatchStep::WaitChange,
    {
        if self.stopped {
            WatchStep::Stop
        } else if self.paused {
            WatchStep::WaitResume
        } else {
            WatchStep::WaitChange
        }
    }

    /// Classifies a clipboard change seen at `now_ms`: within the cooldown after
    /// an own write, the first change is that write's echo and is skipped (the
    /// mark is then cleared); any other change is forwarded.
    pub fn on_change(&mut self, now_ms: u64) -> (a: ChangeAction)
        ensures
            (elapsed_ms(old(self).last_write_ms, now_ms) < write_cooldown_ms() && old(self).self_write) ==> {
                &&& a == ChangeAction::SkipSelfWrite
                &&& *final(self) == (WatchState { self_write: false, ..*old(self) })
            },
            !(elapsed_ms(old(self).last_write_ms, now_ms) < write_cooldown_ms() && old(self).self_write) ==> {
                &&& a == ChangeAction::Forward
                &&& *final(self) == *old(self)
            },
    {
        let elapsed = if now_ms >= self.last_write_ms { now_ms - self.last_write_ms } else { 0 };
        if elapsed < 500 && self.self_write {
            self.self_write = false;
            ChangeAction::SkipSelfWrite
        } else {
            ChangeAction::Forward
        }
    }

    /// Handles a change notification at `now_ms` in the watch loop: the echo
    /// check runs first (see `on_change`), then the change is handed on when it
    /// is no echo and the watcher is not paused. A stop is seen by the loop at
    /// its next turn (`next_step`), not here.
    pub fn on_notification(&mut self, now_ms: u64) -> (forward: bool)
        ensures
            (*final(self), forward) == notify_spec(*old(self), now_ms),
    {
        let a = self.on_change(now_ms);
        match a {
            ChangeAction::SkipSelfWrite => false,
            ChangeAction::Forward => !self.paused,
        }
    }
}

/// A change notification at `now` reaching the watch loop: the state after it,
/// and whether the change is handed on.
pub open spec fn notify_spec(s: WatchState, now: u64) -> (WatchState, bool) {
    if elapsed_ms(s.last_write_ms, now) < write_cooldown_ms() && s.self_write {
        (WatchState { self_write: false, ..s }, false)
    } else {
        (s, !s.paused)
    }
}

/// What happens to a watcher: the calls `pause`, `resume`, `stop`,
/// `note_self_write` (at a time) and a change notification (at a time).
#[derive(Debug, Clone, Copy, PartialEq, Eq, Structural)]
pub enum WatchEvent {
    Pause,
    Resume,
    Stop,
    SelfWrite(u64),
    Change(u64),
}

/// The watch loop as a sequence of events sees it: the watcher's state, and
/// whether the loop has ended. After handling a change the loop turns round
/// and ends if it finds the watcher stopped; an ended loop handles nothing.
/// The result's second part says whether a change was handed on.
pub open spec fn apply_event(s: (WatchState, bool), e: WatchEvent) -> ((WatchState, bool), bool) {
    match e {
        WatchEvent::Pause => ((WatchState { paused: true, ..s.0 }, s.1), false),
        WatchEvent::Resume => ((WatchState { paused: false, ..s.0 }, s.1), false),
        WatchEvent::Stop => ((WatchState { stopped: true, ..s.0 }, s.1), false),
        WatchEvent::SelfWrite(t) => ((WatchState { self_write: true, last_write_ms: t, ..s.0 }, s.1), false),
        WatchEvent::Change(t) => if s.1 {
            (s, false)
        } else {
            let r = notify_spec(s.0, t);
            ((r.0, r.0.stopped), r.1)
        },
    }
}

/// The loop's state after a sequence of events.
pub open spec fn state_after(s: (WatchState, bool), es: Seq<WatchEvent>) -> (WatchState, bool)
    decreases es.len(),
{
    if es.len() == 0 {
        s
    } else {
        apply_event(state_after(s, es.drop_last()), es.last()).0
    }
}

/// Whether the `i`-th event of a sequence hands a change on.
pub open spec fn forwarded_at(s: (WatchState, bool), es: Seq<WatchEvent>, i: int) -> bool {
    apply_event(state_after(s, es.take(i)), es[i]).1
}

/// `state_after` over a prefix one longer is one more event.
proof fn lemma_state_after_step(s: (WatchState, bool), es: Seq<WatchEvent>, i: int)
    requires
        0 <= i < es.len(),
    ensures
        state_after(s, es.take(i + 1)) == apply_event(state_after(s, es.take(i)), es[i]).0,
{
    assert(es.take(i + 1).drop_last() =~= es.take(i));
    assert(es.take(i + 1).last() == es[i]);
}

/// A stopped watcher stays stopped.
proof fn lemma_stopped_persists(s: (WatchState, bool), es: Seq<WatchEvent>)
    requires
        s.0.stopped,
    ensures
        state_after(s, es).0.stopped,
    decreases es.len(),
{
    if es.len() > 0 {
        lemma_stopped_persists(s, es.drop_last());
    }
}

/// An ended loop stays ended, from any prefix on.
proof fn lemma_ended_persists(s: (WatchState, bool), es: Seq<WatchEvent>, k: int, j: int)
    requires
        0 <= k <= j <= es.len(),
        state_after(s, es.take(k)).1,
    ensures
        state_after(s, es.take(j)).1,
    decreases j - k,
{
    if j > k {
        lemma_ended_persists(s, es, k, j - 1);
        lemma_state_after_step(s, es, j - 1);
    }
}

/// A paused watcher stays paused while no `Resume` comes.
proof fn lemma_paused_persists(s: (WatchState, bool), es: Seq<WatchEvent>)
    requires
        s.0.paused,
        forall|i: int| 0 <= i < es.len() ==> #[trigger] es[i] != WatchEvent::Resume,
    ensures
        state_after(s, es).0.paused,
    decreases es.len(),
{
    if es.len() > 0 {
        assert forall|i: int| 0 <= i < es.drop_last().len() implies #[trigger] es.drop_last()[i] != WatchEvent::Resume by {
            assert(es.drop_last()[i] == es[i]);
        }
        lemma_paused_persists(s, es.drop_last());
        assert(es[es.len() - 1] != WatchEvent::Resume);
    }
}

/// Without an own write, no own-write mark appears.
proof fn lemma_no_mark_persists(s: (WatchState, bool), es: Seq<WatchEvent>)
    requires
        !s.0.self_write,
        forall|i: int| 0 <= i < es.len() ==> !(#[trigger] es[i] is SelfWrite),
    ensures
        !state_after(s, es).0.self_write,
    decreases es.len(),
{
    if es.len() > 0 {
        assert forall|i: int| 0 <= i < es.drop_last().len() implies !(#[trigger] es.drop_last()[i] is SelfWrite) by {
            assert(es.drop_last()[i] == es[i]);
        }
        lemma_no_mark_persists(s, es.drop_last());
        assert(!(es[es.len() - 1] is SelfWrite));
    }
}

/// Law: once the watcher is stopped it stays stopped, and at most one more
/// change is handed on: the one the loop was already waiting for. After
/// handling it the loop ends, and no later change is handed on.
pub proof fn law_watch_stop_is_final(s: (WatchState, bool), es: Seq<WatchEvent>, i: int, j: int)
    requires
        s.0.stopped,
        0 <= i < j < es.len(),
        es[i] is Change,
    ensures
        state_after(s, es).0.stopped,
        !forwarded_at(s, es, j),
{
    lemma_stopped_persists(s, es);
    lemma_stopped_persists(s, es.take(i));
    lemma_state_after_step(s, es, i);
    assert(state_after(s, es.take(i + 1)).1);
    lemma_ended_persists(s, es, i + 1, j);
}

/// Law: an ended loop hands no change on, whatever follows.
pub proof fn law_watch_ended_forwards_nothing(s: (WatchState, bool), es: Seq<WatchEvent>, i: int)
    requires
        s.1,
        0 <= i < es.len(),
    ensures
        !forwarded_at(s, es, i),
{
    assert(es.take(0) =~= Seq::<WatchEvent>::empty());
    lemma_ended_persists(s, es, 0, i);
}

/// Law: while paused, until a `Resume`, a watcher hands no change on.
pub proof fn law_watch_paused_forwards_nothing(s: (WatchState, bool), es: Seq<WatchEvent>)
    requires
        s.0.paused,
        forall|i: int| 0 <= i < es.len() ==> #[trigger] es[i] != WatchEvent::Resume,
    ensures
        state_after(s, es).0.paused,
        forall|i: int| 0 <= i < es.len() ==> !#[trigger] forwarded_at(s, es, i),
{
    lemma_paused_persists(s, es);
    assert forall|i: int| 0 <= i < es.len() implies !#[trigger] forwarded_at(s, es, i) by {
        assert forall|k: int| 0 <= k < es.take(i).len() implies #[trigger] es.take(i)[k] != WatchEvent::Resume by {
            assert(es.take(i)[k] == es[k]);
        }
        lemma_paused_persists(s, es.take(i));
    }
}

/// Law: a change is handed on only by a change notification that finds the
/// loop running, the watcher unpaused, and no marked own write within the cooldown.
pub proof fn law_watch_forward_conditions(s: (WatchState, bool), es: Seq<WatchEvent>, i: int)
    requires
        0 <= i < es.len(),
        forwarded_at(s, es, i),
    ensures
        es[i] is Change,
        ({
            let st = state_after(s, es.take(i));
            &&& !st.1
            &&& !st.0.paused
            &&& !(st.0.self_write && elapsed_ms(st.0.last_write_ms, es[i]->Change_0) < write_cooldown_ms())
        }),
{
}

/// Law: without an own write, no change is taken for an echo: every change
/// notification is handed on exactly when the loop runs and the watcher is unpaused.
pub proof fn law_watch_no_write_no_skip(s: (WatchState, bool), es: Seq<WatchEvent>, i: int)
    requires
        !s.0.self_write,
        forall|k: int| 0 <= k < es.len() ==> !(#[trigger] es[k] is SelfWrite),
        0 <= i < es.len(),
        es[i] is Change,
    ensures
        forwarded_at(s, es, i) == (!state_after(s, es.take(i)).1 && !state_after(s, es.take(i)).0.paused),
{
    assert forall|k: int| 0 <= k < es.take(i).len() implies !(#[trigger] es.take(i)[k] is SelfWrite) by {
        assert(es.take(i)[k] == es[k]);
    }
    lemma_no_mark_persists(s, es.take(i));
}

/// Whether the user is idle: more than `sleep_timeout_ms` since the last
/// keyboard or mouse activity.
pub fn is_sleep(last_activity_ms: u64, now_ms: u64, sleep_timeout_ms: u64) -> (b: bool)
    ensures
        b == (elapsed_ms(last_activity_ms, now_ms) > sleep_timeout_ms),
{
    let elapsed = if now_ms >= last_activity_ms { now_ms - last_activity_ms } else { 0 };
    elapsed > sleep_timeout_ms
}

} // verus!
