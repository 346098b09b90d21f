use std::time::{Duration, SystemTime, UNIX_EPOCH};

use sitecheck::clock::{seconds_since_epoch, timestamp_of, unix_seconds};

#[test]
fn a_reading_is_kept_and_none_is_zero() {
    assert_eq!(timestamp_of(Some(1_700_000_000)), 1_700_000_000);
    assert_eq!(timestamp_of(Some(0)), 0);
    assert_eq!(timestamp_of(Some(u64::MAX)), u64::MAX);
    assert_eq!(timestamp_of(None), 0);
}

#[test]
fn seconds_are_counted_from_the_epoch() {
    assert_eq!(seconds_since_epoch(&UNIX_EPOCH), 0);
    assert_eq!(seconds_since_epoch(&(UNIX_EPOCH + Duration::from_millis(1999))), 1);
    assert_eq!(seconds_since_epoch(&(UNIX_EPOCH + Duration::from_secs(1_700_000_000))), 1_700_000_000);
}

#[test]
fn a_time_before_the_epoch_counts_as_zero() {
    assert_eq!(seconds_since_epoch(&(UNIX_EPOCH - Duration::from_secs(5))), 0);
}

#[test]
fn now_lies_after_2020_and_agrees_with_the_system_clock() {
    let before = SystemTime::now().duration_since(UNIX_EPOCH).unwrap().as_secs();
    let now = unix_seconds();
    let after = SystemTime::now().duration_since(UNIX_EPOCH).unwrap().as_secs();
    assert!(now > 1_577_836_800);
    assert!(before <= now && now <= after);
}
