//! The window of events that can be replayed.

use herdr::event_hub::{EventHub, MAX_EVENTS};
use herdr::schema::EventData;

fn event(index: usize) -> EventData {
    EventData::WorkspaceClosed { workspace_id: format!("w{index}") }
}

#[test]
fn replay_window_accepts_current_and_retained_cursors() {
    let mut hub = EventHub::default();
    assert!(hub.can_replay_after(0));
    hub.push(event(1));
    hub.push(event(2));
    assert!(hub.can_replay_after(0));
    assert!(hub.can_replay_after(1));
    assert!(hub.can_replay_after(2));
    assert!(!hub.can_replay_after(3));
}

#[test]
fn replay_window_rejects_evicted_cursors() {
    let mut hub = EventHub::default();
    for index in 0..=MAX_EVENTS {
        hub.push(event(index));
    }
    assert!(!hub.can_replay_after(0));
    assert!(hub.can_replay_after(1));
    assert!(hub.events_after_checked(0).is_none());
    assert_eq!(hub.events_after_checked(1).expect("retained replay").len(), MAX_EVENTS);
}

#[test]
fn a_replay_has_no_gaps() {
    let mut hub = EventHub::default();
    for index in 0..5 {
        hub.push(event(index));
    }
    assert_eq!(hub.current_sequence(), 5);
    let replay = hub.events_after(2);
    let sequences: Vec<u64> = replay.iter().map(|(sequence, _)| *sequence).collect();
    assert_eq!(sequences, vec![3, 4, 5]);
    assert_eq!(*replay[0].1, event(2));
}
