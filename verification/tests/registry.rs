//! Tests for the per-guild queue registry: session lifecycle and the
//! operations the command layer runs against a guild's queue.

use track_queue::registry::QueueRegistry;
use track_queue::track::{TrackHandle, TrackMetadata, TrackState};

fn track(id: u64) -> TrackHandle {
    TrackHandle::new(id, TrackMetadata::empty())
}

#[test]
fn join_creates_one_queue_per_guild() {
    let mut reg = QueueRegistry::new();
    assert_eq!(reg.guild_count(), 0);
    assert!(!reg.contains(10));

    assert!(reg.join(10));
    assert!(reg.contains(10));
    assert_eq!(reg.guild_count(), 1);
    assert_eq!(reg.queue_len(10), Some(0));

    // Joining an already present guild is a caller error: a no-op.
    assert!(!reg.join(10));
    assert_eq!(reg.guild_count(), 1);

    assert!(reg.join(11));
    assert_eq!(reg.guild_count(), 2);
}

#[test]
fn leave_removes_the_guild_and_its_queue() {
    let mut reg = QueueRegistry::new();
    reg.join(10);
    reg.add_track(10, track(1), TrackMetadata::empty());
    reg.add_track(10, track(2), TrackMetadata::empty());

    assert!(reg.leave(10));
    assert!(!reg.contains(10));
    assert_eq!(reg.guild_count(), 0);
    assert_eq!(reg.queue_len(10), None);

    // Leaving again finds nothing.
    assert!(!reg.leave(10));
}

#[test]
fn operations_on_an_absent_guild_do_nothing() {
    let mut reg = QueueRegistry::new();
    assert!(!reg.add_track(42, track(1), TrackMetadata::empty()));
    assert!(!reg.handle_track_end(42, 1));
    assert!(reg.skip(42).is_none());
    assert!(reg.queue_len(42).is_none());
    assert!(reg.current(42).is_none());
    assert!(reg.current_queue(42).is_none());
    assert_eq!(reg.guild_count(), 0);
}

#[test]
fn guild_queues_are_isolated() {
    let mut reg = QueueRegistry::new();
    reg.join(10);
    reg.join(11);

    assert!(reg.add_track(10, track(1), TrackMetadata::empty()));
    assert!(reg.add_track(10, track(2), TrackMetadata::empty()));
    assert!(reg.add_track(11, track(3), TrackMetadata::empty()));

    assert_eq!(reg.queue_len(10), Some(2));
    assert_eq!(reg.queue_len(11), Some(1));
    assert_eq!(reg.current(10).unwrap().id, 1);
    assert_eq!(reg.current(11).unwrap().id, 3);

    // Advancing one guild leaves the other untouched.
    assert!(reg.handle_track_end(10, 1));
    assert_eq!(reg.queue_len(10), Some(1));
    assert_eq!(reg.current(10).unwrap().id, 2);
    assert_eq!(reg.queue_len(11), Some(1));
    assert_eq!(reg.current(11).unwrap().id, 3);
}

#[test]
fn skip_through_the_registry_waits_for_the_completion_event() {
    let mut reg = QueueRegistry::new();
    reg.join(10);
    reg.add_track(10, track(1), TrackMetadata::empty());
    reg.add_track(10, track(2), TrackMetadata::empty());

    let res = reg.skip(10).expect("guild is present");
    assert!(res.is_ok());
    assert_eq!(reg.queue_len(10), Some(2));
    assert_eq!(reg.current(10).unwrap().state, TrackState::Stopped);

    assert!(reg.handle_track_end(10, 1));
    assert_eq!(reg.queue_len(10), Some(1));
    let cur = reg.current(10).unwrap();
    assert_eq!(cur.id, 2);
    assert_eq!(cur.state, TrackState::Playing);
}

#[test]
fn current_queue_snapshots_one_guild() {
    let mut reg = QueueRegistry::new();
    reg.join(10);
    reg.add_track(10, track(1), TrackMetadata::empty());
    reg.add_track(10, track(2), TrackMetadata::empty());

    let snapshot = reg.current_queue(10).expect("guild is present");
    assert_eq!(snapshot.len(), 2);
    assert_eq!(snapshot[0].id, 1);
    assert_eq!(snapshot[0].state, TrackState::Playing);
    assert_eq!(snapshot[1].id, 2);
    assert_eq!(snapshot[1].state, TrackState::Paused);
}
