use ctrl_eqip::logic::presence::{PresenceState, PresenceTracker, DEFAULT_TIMEOUT_NANOS};
use std::time::{Duration, Instant};

#[test]
fn present_when_detected() {
    let mut tracker = PresenceTracker::default();
    assert_eq!(tracker.update(true), PresenceState::Present);
}

#[test]
fn timing_out_after_loss() {
    let mut tracker = PresenceTracker::default();
    tracker.update(true); // person seen
    let state = tracker.update(false); // lost — within 30s window
    assert!(matches!(state, PresenceState::TimingOut(_)));
}

#[test]
fn absent_when_never_seen() {
    let mut tracker = PresenceTracker::default();
    assert_eq!(tracker.update(false), PresenceState::Absent);
}

#[test]
fn absent_after_short_timeout() {
    // Use a short timeout for fast testing
    let mut tracker = PresenceTracker::new(Duration::from_millis(50));
    tracker.update(true);
    let start = Instant::now();
    while start.elapsed() < Duration::from_millis(60) {}
    assert_eq!(tracker.update(false), PresenceState::Absent);
}

#[test]
fn reset_clears_state() {
    let mut tracker = PresenceTracker::default();
    tracker.update(true);
    tracker.reset();
    assert!(tracker.time_since_last_seen().is_none());
    assert_eq!(tracker.update(false), PresenceState::Absent);
}

#[test]
fn timeout_window_exact() {
    let mut tracker = PresenceTracker::with_timeout_nanos(1_000);
    assert_eq!(tracker.update_at(false, 5), PresenceState::Absent);
    assert_eq!(tracker.update_at(true, 100), PresenceState::Present);
    assert_eq!(tracker.update_at(false, 100), PresenceState::TimingOut(1_000));
    assert_eq!(tracker.update_at(false, 400), PresenceState::TimingOut(700));
    assert_eq!(tracker.update_at(false, 1_099), PresenceState::TimingOut(1));
    assert_eq!(tracker.update_at(false, 1_100), PresenceState::Absent);
    assert_eq!(tracker.update_at(false, 50), PresenceState::TimingOut(1_000));
    assert_eq!(tracker.time_since_last_seen_at(350), Some(250));
    assert_eq!(tracker.time_since_last_seen_at(20), Some(0));
    tracker.reset();
    assert_eq!(tracker.time_since_last_seen_at(350), None);
    assert_eq!(tracker.update_at(false, 150), PresenceState::Absent);
}

#[test]
fn state_helpers() {
    assert!(PresenceState::Present.should_fan_run());
    assert!(PresenceState::TimingOut(3).should_fan_run());
    assert!(!PresenceState::Absent.should_fan_run());
    assert!(PresenceState::Present.is_present());
    assert!(!PresenceState::TimingOut(3).is_present());
    assert!(!PresenceState::Absent.is_present());
}

#[test]
fn default_timeout_is_thirty_seconds() {
    assert_eq!(DEFAULT_TIMEOUT_NANOS, 30_000_000_000);
    let mut tracker = PresenceTracker::default();
    assert_eq!(tracker.update_at(true, 0), PresenceState::Present);
    assert_eq!(tracker.update_at(false, 29_999_999_999), PresenceState::TimingOut(1));
    assert_eq!(tracker.update_at(false, 30_000_000_000), PresenceState::Absent);
}

#[test]
fn new_takes_duration_in_nanos() {
    let mut tracker = PresenceTracker::new(Duration::from_millis(2));
    assert_eq!(tracker.update_at(true, 0), PresenceState::Present);
    assert_eq!(tracker.update_at(false, 1_000_000), PresenceState::TimingOut(1_000_000));
    assert_eq!(tracker.update_at(false, 2_000_000), PresenceState::Absent);
}
