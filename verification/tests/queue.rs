//! Scenario tests for the playback queue: ordering, advancement on
//! completion events, races with skip/stop/dequeue, and failure
//! recovery.

use std::collections::VecDeque;

use track_queue::queue::TrackQueue;
use track_queue::track::{Queued, TrackError, TrackHandle, TrackMetadata, TrackState};

fn titled(title: &str) -> TrackMetadata {
    let mut m = TrackMetadata::empty();
    m.title = Some(title.to_string());
    m
}

fn track(id: u64) -> TrackHandle {
    TrackHandle::new(id, TrackMetadata::empty())
}

#[test]
fn add_three_tracks_first_is_current_rest_inert() {
    let mut q = TrackQueue::new();
    q.add(track(1), TrackMetadata::empty());
    q.add(track(2), TrackMetadata::empty());
    q.add(track(3), TrackMetadata::empty());

    assert_eq!(q.len(), 3);
    assert!(!q.is_empty());

    let cur = q.current().expect("non-empty queue has a current track");
    assert_eq!(cur.id, 1);
    assert_eq!(cur.state, TrackState::Playing);

    let snapshot = q.current_queue();
    assert_eq!(snapshot.len(), 3);
    assert_eq!(snapshot[1].id, 2);
    assert_eq!(snapshot[1].state, TrackState::Paused);
    assert_eq!(snapshot[2].id, 3);
    assert_eq!(snapshot[2].state, TrackState::Paused);
}

#[test]
fn natural_completion_pops_head_and_starts_next() {
    let mut q = TrackQueue::new();
    q.add(track(1), TrackMetadata::empty());
    q.add(track(2), TrackMetadata::empty());
    q.add(track(3), TrackMetadata::empty());

    q.handle_track_end(1);

    assert_eq!(q.len(), 2);
    let cur = q.current().unwrap();
    assert_eq!(cur.id, 2);
    assert_eq!(cur.state, TrackState::Playing);
}

#[test]
fn skip_signals_stop_and_advancement_waits_for_completion_event() {
    let mut q = TrackQueue::new();
    q.add(track(1), TrackMetadata::empty());
    q.add(track(2), TrackMetadata::empty());
    q.add(track(3), TrackMetadata::empty());
    q.handle_track_end(1);

    // Skip while track 2 is active: it is signalled to stop, but the
    // queue is not popped yet.
    assert!(q.skip().is_ok());
    assert_eq!(q.len(), 2);
    let cur = q.current().unwrap();
    assert_eq!(cur.id, 2);
    assert_eq!(cur.state, TrackState::Stopped);

    // Only the stopped track's own completion event advances the queue.
    q.handle_track_end(2);
    assert_eq!(q.len(), 1);
    let cur = q.current().unwrap();
    assert_eq!(cur.id, 3);
    assert_eq!(cur.state, TrackState::Playing);

    // The same completion event delivered again (the natural end racing
    // with the skip) is stale and must not pop a second time.
    q.handle_track_end(2);
    assert_eq!(q.len(), 1);
    assert_eq!(q.current().unwrap().id, 3);
}

#[test]
fn stale_completion_event_is_a_no_op() {
    let mut q = TrackQueue::new();
    q.add(track(1), TrackMetadata::empty());
    q.add(track(2), TrackMetadata::empty());

    // No track with this identity is at the head.
    q.handle_track_end(99);

    assert_eq!(q.len(), 2);
    let cur = q.current().unwrap();
    assert_eq!(cur.id, 1);
    assert_eq!(cur.state, TrackState::Playing);
}

#[test]
fn dequeue_removes_second_entry_without_stopping_it() {
    let mut q = TrackQueue::new();
    q.add(track(1), TrackMetadata::empty());
    q.add(track(2), TrackMetadata::empty());
    q.add(track(3), TrackMetadata::empty());

    let removed = q.dequeue(1).expect("index 1 is in range");
    assert_eq!(removed.0.id, 2);
    // The removed track was not stopped; it is still merely paused.
    assert_eq!(removed.0.state, TrackState::Paused);

    // The active head is not disturbed.
    assert_eq!(q.len(), 2);
    let cur = q.current().unwrap();
    assert_eq!(cur.id, 1);
    assert_eq!(cur.state, TrackState::Playing);

    let snapshot = q.current_queue();
    assert_eq!(snapshot[1].id, 3);
}

#[test]
fn dequeue_out_of_range_returns_nothing() {
    let mut q = TrackQueue::new();
    assert!(q.dequeue(0).is_none());
    q.add(track(1), TrackMetadata::empty());
    assert!(q.dequeue(1).is_none());
    assert!(q.dequeue(17).is_none());
    assert_eq!(q.len(), 1);
}

#[test]
fn advancement_discards_entry_that_fails_to_start() {
    let mut q = TrackQueue::new();
    q.add(track(1), TrackMetadata::empty());
    let mut broken = track(2);
    // Simulate the underlying resource being invalidated while queued.
    broken.invalidate();
    q.add(broken, TrackMetadata::empty());
    q.add(track(3), TrackMetadata::empty());

    q.handle_track_end(1);

    // Both track 1 (completed) and track 2 (unstartable) are gone.
    assert_eq!(q.len(), 1);
    let cur = q.current().unwrap();
    assert_eq!(cur.id, 3);
    assert_eq!(cur.state, TrackState::Playing);
}

#[test]
fn advancement_over_all_unstartable_entries_empties_the_queue() {
    let mut q = TrackQueue::new();
    q.add(track(1), TrackMetadata::empty());
    let mut b2 = track(2);
    b2.invalidate();
    let mut b3 = track(3);
    b3.invalidate();
    q.add(b2, TrackMetadata::empty());
    q.add(b3, TrackMetadata::empty());

    q.handle_track_end(1);

    assert!(q.is_empty());
    assert!(q.current().is_none());
}

// Only the drain is observable at runtime: the entries are dropped as
// they are stopped. That each one was signalled to stop exactly once is
// the `signal_log` clause of `stop`'s contract.
#[test]
fn stop_drains_every_entry() {
    let mut q = TrackQueue::new();
    q.add(track(1), TrackMetadata::empty());
    q.add(track(2), TrackMetadata::empty());
    q.add(track(3), TrackMetadata::empty());

    q.stop();

    assert_eq!(q.len(), 0);
    assert!(q.is_empty());
    assert!(q.current().is_none());
    assert!(q.current_queue().is_empty());
}

#[test]
fn pause_and_resume_signal_only_the_head() {
    let mut q = TrackQueue::new();
    q.add(track(1), TrackMetadata::empty());
    q.add(track(2), TrackMetadata::empty());

    assert!(q.pause().is_ok());
    assert_eq!(q.current().unwrap().state, TrackState::Paused);
    let snapshot = q.current_queue();
    assert_eq!(snapshot[1].state, TrackState::Paused);

    assert!(q.resume().is_ok());
    assert_eq!(q.current().unwrap().state, TrackState::Playing);
    let snapshot = q.current_queue();
    assert_eq!(snapshot[1].state, TrackState::Paused);
}

#[test]
fn signals_on_an_empty_queue_are_no_ops() {
    let mut q = TrackQueue::new();
    assert!(q.pause().is_ok());
    assert!(q.resume().is_ok());
    assert!(q.skip().is_ok());
    assert!(q.current().is_none());
    assert_eq!(q.len(), 0);
}

#[test]
fn signalling_a_gone_head_surfaces_the_failure() {
    let mut q = TrackQueue::new();
    q.add(track(1), TrackMetadata::empty());
    assert!(q.skip().is_ok());

    // The head is already stopped; further signals fail, and the
    // backlog is not corrupted by the failure.
    assert_eq!(q.pause(), Err(TrackError::Finished));
    assert_eq!(q.resume(), Err(TrackError::Finished));
    assert_eq!(q.skip(), Err(TrackError::Finished));
    assert_eq!(q.len(), 1);
    assert_eq!(q.current().unwrap().id, 1);
}

#[test]
fn add_snapshots_metadata_at_enqueue_time() {
    let mut q = TrackQueue::new();
    let handle = TrackHandle::new(7, titled("seven"));
    q.add_source(handle);

    let cur = q.current().unwrap();
    assert_eq!(cur.metadata.title.as_deref(), Some("seven"));

    let entry = q.dequeue(0).unwrap();
    assert_eq!(entry.1.title.as_deref(), Some("seven"));
    assert_eq!(entry.handle().id, 7);
    assert_eq!(entry.metadata().title.as_deref(), Some("seven"));
}

#[test]
fn modify_queue_reorders_under_the_lock() {
    let mut q = TrackQueue::new();
    q.add(track(1), TrackMetadata::empty());
    q.add(track(2), TrackMetadata::empty());
    q.add(track(3), TrackMetadata::empty());

    // Move the last entry to play right after the current head.
    let moved_id = q.modify_queue(|mut v: VecDeque<Queued>| {
        let last = v.pop_back().unwrap();
        let id = last.0.id;
        v.insert(1, last);
        (v, id)
    });

    assert_eq!(moved_id, 3);
    assert_eq!(q.len(), 3);
    let snapshot = q.current_queue();
    assert_eq!(snapshot[0].id, 1);
    assert_eq!(snapshot[1].id, 3);
    assert_eq!(snapshot[2].id, 2);
}

#[test]
fn dequeued_entry_can_be_readded_via_modify_queue() {
    let mut q = TrackQueue::new();
    q.add(track(1), TrackMetadata::empty());
    q.add(track(2), TrackMetadata::empty());
    q.add(track(3), TrackMetadata::empty());

    let entry = q.dequeue(1).unwrap();
    assert_eq!(q.len(), 2);

    q.modify_queue(|mut v: VecDeque<Queued>| {
        v.push_back(entry);
        (v, ())
    });
    assert_eq!(q.len(), 3);
    let snapshot = q.current_queue();
    assert_eq!(snapshot[2].id, 2);
    assert_eq!(snapshot[2].state, TrackState::Paused);
}

#[test]
fn default_queue_is_empty() {
    let q = TrackQueue::default();
    assert!(q.is_empty());
    assert!(q.current().is_none());
}

#[test]
fn track_signals_follow_the_handle_state() {
    let mut t = track(5);
    assert_eq!(t.state, TrackState::Playing);
    assert!(t.pause().is_ok());
    assert_eq!(t.state, TrackState::Paused);
    assert!(t.play().is_ok());
    assert_eq!(t.state, TrackState::Playing);
    assert!(t.stop().is_ok());
    assert_eq!(t.state, TrackState::Stopped);

    // A stopped track is gone: every further signal fails.
    assert_eq!(t.play(), Err(TrackError::Finished));
    assert_eq!(t.pause(), Err(TrackError::Finished));
    assert_eq!(t.stop(), Err(TrackError::Finished));

    let mut dead = track(6);
    dead.invalidate();
    assert_eq!(dead.play(), Err(TrackError::Finished));
}
