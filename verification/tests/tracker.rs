use limb_controller::frame::{FrameError, ServoCommand};
use limb_controller::tracker::{ChangeTracker, SendMode};

fn command(top: u16) -> ServoCommand {
    ServoCommand { top, shoulder: 20, upper: 30, elbow: 40, lower: 50 }
}

fn clean_auto_tracker() -> ChangeTracker {
    let mut tracker = ChangeTracker::new();
    tracker.record_send(command(1));
    assert!(tracker.try_clear(&command(1)));
    assert!(!tracker.is_dirty());
    tracker
}

#[test]
fn new_tracker_is_dirty_and_automatic() {
    let tracker = ChangeTracker::new();
    assert!(tracker.is_dirty());
    assert_eq!(tracker.mode(), SendMode::Auto);
    assert_eq!(tracker.last_sent(), None);
    assert!(tracker.should_send(false));
}

#[test]
fn any_edit_sets_dirty() {
    let mut tracker = clean_auto_tracker();
    tracker.mark_dirty();
    assert!(tracker.is_dirty());
    tracker.mark_dirty();
    assert!(tracker.is_dirty());

    let mut manual = clean_auto_tracker();
    manual.set_mode(SendMode::Manual);
    assert!(!manual.is_dirty());
    manual.mark_dirty();
    assert!(manual.is_dirty());
}

#[test]
fn automatic_mode_sends_while_dirty() {
    let mut tracker = clean_auto_tracker();
    assert!(!tracker.should_send(false));
    assert!(!tracker.should_send(true));
    tracker.mark_dirty();
    assert!(tracker.should_send(false));
    tracker.record_send(command(2));
    assert!(tracker.should_send(false));
}

#[test]
fn acknowledged_send_stays_dirty_until_matching_echo() {
    let mut tracker = ChangeTracker::new();
    tracker.record_send(command(2));
    assert!(tracker.is_dirty());
    assert_eq!(tracker.last_sent(), Some(command(2)));
    assert!(!tracker.try_clear(&command(3)));
    assert!(tracker.is_dirty());
    assert!(!tracker.try_clear(&ServoCommand { lower: 51, ..command(2) }));
    assert!(tracker.is_dirty());
    assert!(tracker.try_clear(&command(2)));
    assert!(!tracker.is_dirty());
    assert!(!tracker.should_send(false));
}

#[test]
fn echo_of_an_older_command_does_not_acknowledge() {
    let mut tracker = ChangeTracker::new();
    tracker.record_send(command(1));
    tracker.mark_dirty();
    tracker.record_send(command(2));
    assert!(!tracker.try_clear(&command(1)));
    assert!(tracker.is_dirty());
    assert!(tracker.try_clear(&command(2)));
    assert!(!tracker.is_dirty());
}

#[test]
fn echo_before_any_send_acknowledges_nothing() {
    let mut tracker = ChangeTracker::new();
    assert!(!tracker.try_clear(&command(1)));
    assert!(tracker.is_dirty());
}

#[test]
fn manual_mode_sends_on_trigger_only() {
    let mut tracker = ChangeTracker::new();
    tracker.set_mode(SendMode::Manual);
    assert!(tracker.is_dirty());
    assert!(!tracker.should_send(false));
    assert!(tracker.should_send(true));
    tracker.record_send(command(1));
    assert!(!tracker.is_dirty());
    assert!(tracker.should_send(true));
    assert!(!tracker.should_send(false));
}

#[test]
fn manual_mode_keeps_dirty_until_explicit_send() {
    let mut tracker = ChangeTracker::new();
    tracker.record_send(command(1));
    tracker.set_mode(SendMode::Manual);
    tracker.mark_dirty();
    assert!(!tracker.try_clear(&command(1)));
    assert!(tracker.is_dirty());
    tracker.mark_dirty();
    assert!(tracker.is_dirty());
    tracker.record_send(command(2));
    assert!(!tracker.is_dirty());
    assert_eq!(tracker.last_sent(), Some(command(2)));
}

#[test]
fn switching_modes_keeps_dirty() {
    let mut dirty = ChangeTracker::new();
    dirty.set_mode(SendMode::Manual);
    assert!(dirty.is_dirty());
    assert_eq!(dirty.mode(), SendMode::Manual);
    dirty.set_mode(SendMode::Auto);
    assert!(dirty.is_dirty());
    assert_eq!(dirty.mode(), SendMode::Auto);

    let mut clean = clean_auto_tracker();
    clean.set_mode(SendMode::Manual);
    assert!(!clean.is_dirty());
    clean.set_mode(SendMode::Auto);
    assert!(!clean.is_dirty());
    assert_eq!(clean.last_sent(), Some(command(1)));
}

#[test]
fn observe_frame_acknowledges_echo_of_last_command() {
    let mut tracker = ChangeTracker::new();
    let sent = command(9);
    tracker.record_send(sent);
    let other = command(8).encode();
    assert_eq!(tracker.observe_frame(&other), Ok(false));
    assert!(tracker.is_dirty());
    let echo = sent.encode();
    assert_eq!(tracker.observe_frame(&echo), Ok(true));
    assert!(!tracker.is_dirty());
}

#[test]
fn observe_frame_reports_malformed_frames_and_changes_nothing() {
    let mut tracker = ChangeTracker::new();
    let sent = command(9);
    tracker.record_send(sent);
    let echo = sent.encode();
    assert_eq!(tracker.observe_frame(&echo[..10]), Err(FrameError::WrongLength { actual: 10 }));
    assert_eq!(tracker.observe_frame(&[]), Err(FrameError::WrongLength { actual: 0 }));
    assert!(tracker.is_dirty());
    assert_eq!(tracker.last_sent(), Some(sent));
    assert_eq!(tracker.mode(), SendMode::Auto);
}
