//! Exact-value tests for the rendering helpers.

use track_queue::display::{
    decimal_string, display_title, format_track_time, now_playing_line, queue_position_line,
};
use track_queue::track::TrackMetadata;

#[test]
fn decimal_rendering() {
    assert_eq!(decimal_string(0), "0");
    assert_eq!(decimal_string(7), "7");
    assert_eq!(decimal_string(10), "10");
    assert_eq!(decimal_string(12345), "12345");
    assert_eq!(decimal_string(u64::MAX), "18446744073709551615");
}

#[test]
fn track_times_follow_the_listing_format() {
    assert_eq!(format_track_time(0), "00");
    assert_eq!(format_track_time(7), "07");
    assert_eq!(format_track_time(45), "45");
    // A full minute has no minutes part: the threshold is strict.
    assert_eq!(format_track_time(60), "60");
    assert_eq!(format_track_time(61), "1:01");
    assert_eq!(format_track_time(754), "12:34");
    // A full hour has no hours part either.
    assert_eq!(format_track_time(3600), "60:00");
    assert_eq!(format_track_time(3661), "1:1:01");
    assert_eq!(format_track_time(7325), "2:2:05");
}

#[test]
fn titles_fall_back_from_title_to_track_to_placeholder() {
    let mut m = TrackMetadata::empty();
    assert_eq!(display_title(&m, "Unknown"), "Unknown");

    m.track = Some("track name".to_string());
    assert_eq!(display_title(&m, "Unknown"), "track name");

    m.title = Some("the title".to_string());
    assert_eq!(display_title(&m, "Unknown"), "the title");
}

#[test]
fn now_playing_banner() {
    let mut m = TrackMetadata::empty();
    assert_eq!(now_playing_line(0, &m), "No songs left in queue.");
    assert_eq!(now_playing_line(2, &m), "Now playing another song. (no metadata)");

    m.title = Some("Song".to_string());
    assert_eq!(now_playing_line(2, &m), "Now playing another song. (no metadata)");

    m.artist = Some("Artist".to_string());
    assert_eq!(now_playing_line(2, &m), "Now playing: Song by Artist");
}

#[test]
fn queue_position_notice() {
    assert_eq!(queue_position_line(2), "It's up next.");
    assert_eq!(queue_position_line(3), "It'll play after the next track.");
    assert_eq!(queue_position_line(4), "It'll play after the next 2 tracks.");
    assert_eq!(queue_position_line(12), "It'll play after the next 10 tracks.");
}
