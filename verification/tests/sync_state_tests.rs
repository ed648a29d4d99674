use uniclipboard::message::Timestamp;
use uniclipboard::monitor::{is_sleep, ChangeAction, WatchState, WatchStep};
use uniclipboard::webdav::{
    is_later, latest_file, oldest_file, poll_decide, poll_gate, poll_step, upload_path, PollDecision,
    PollGate,
};

fn ts(secs: i64) -> Option<Timestamp> {
    Some(Timestamp { secs, nanos: 0 })
}

#[test]
fn upload_paths() {
    assert_eq!(upload_path("/", "123456", "abc"), "/123456_abc.bin");
    assert_eq!(upload_path("/uniclipboard", "123456", "abc"), "/uniclipboard/123456_abc.bin");
}

#[test]
fn newest_and_oldest_files() {
    let entries = vec![None, ts(5), ts(9), ts(2), ts(9), None, ts(2)];
    // max_by_key keeps the last of equal maxima, min_by_key the first of equal minima
    assert_eq!(latest_file(&entries), Some(4));
    assert_eq!(oldest_file(&entries), Some(3));
    assert_eq!(latest_file(&vec![None, None]), None);
    assert_eq!(oldest_file(&vec![]), None);
    assert!(is_later(Timestamp { secs: 1, nanos: 5 }, Timestamp { secs: 1, nanos: 4 }));
    assert!(!is_later(Timestamp { secs: 1, nanos: 5 }, Timestamp { secs: 2, nanos: 0 }));
}

#[test]
fn polling_rules() {
    assert_eq!(poll_gate(true, false, true), PollGate::Wait);
    assert_eq!(poll_gate(false, false, true), PollGate::NotRunning);
    assert_eq!(poll_gate(false, true, true), PollGate::TimedOut);
    assert_eq!(poll_gate(false, true, false), PollGate::Fetch);
    let t = Timestamp { secs: 10, nanos: 0 };
    assert_eq!(poll_decide("me", "me", t, None), PollDecision::SkipOwn);
    assert_eq!(poll_decide("other", "me", t, None), PollDecision::Download);
    assert_eq!(poll_decide("other", "me", t, Some(t)), PollDecision::NoChange);
    assert_eq!(
        poll_decide("other", "me", t, Some(Timestamp { secs: 9, nanos: 999 })),
        PollDecision::Download
    );
}

#[test]
fn own_write_echo_is_skipped_once() {
    let mut s = WatchState::new(0);
    assert_eq!(s.next_step(), WatchStep::WaitChange);
    s.note_self_write(1000);
    assert_eq!(s.on_change(1200), ChangeAction::SkipSelfWrite);
    assert_eq!(s.on_change(1300), ChangeAction::Forward);
    s.note_self_write(2000);
    assert_eq!(s.on_change(2500), ChangeAction::Forward);
    s.pause();
    assert_eq!(s.next_step(), WatchStep::WaitResume);
    s.resume();
    s.stop();
    assert_eq!(s.next_step(), WatchStep::Stop);
}

#[test]
fn idle_detection() {
    assert!(!is_sleep(1000, 6000, 5000));
    assert!(is_sleep(1000, 6001, 5000));
    assert!(!is_sleep(7000, 6000, 5000));
}

#[test]
fn poll_step_moves_last_taken_only_on_download() {
    let t = Timestamp { secs: 10, nanos: 0 };
    let earlier = Some(Timestamp { secs: 5, nanos: 0 });
    assert_eq!(poll_step(None, "other", "me", t), (PollDecision::Download, Some(t)));
    assert_eq!(poll_step(earlier, "other", "me", t), (PollDecision::Download, Some(t)));
    assert_eq!(poll_step(Some(t), "other", "me", t), (PollDecision::NoChange, Some(t)));
    assert_eq!(poll_step(earlier, "me", "me", t), (PollDecision::SkipOwn, earlier));
}

#[test]
fn notification_handling() {
    let mut s = WatchState::new(0);
    assert!(s.on_notification(10));
    s.note_self_write(100);
    assert!(!s.on_notification(300));
    assert!(!s.self_write);
    assert!(s.on_notification(350));
    s.pause();
    assert!(!s.on_notification(2000));
    s.resume();
    assert!(s.on_notification(2100));
    s.stop();
    // a stop is seen by the loop at its next turn; a change already awaited is handed on
    assert!(s.on_notification(2200));
    assert_eq!(s.next_step(), WatchStep::Stop);
}
