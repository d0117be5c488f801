use clientd::event::{now_millis, to_millis, to_timestamp, Event};
use std::time::{SystemTime, UNIX_EPOCH};

fn wall_clock_millis() -> u64 {
    let elapsed = SystemTime::now().duration_since(UNIX_EPOCH).unwrap();
    elapsed.as_secs() * 1000 + u64::from(elapsed.subsec_nanos()) / 1_000_000
}

#[test]
fn millis_of_whole_seconds() {
    assert_eq!(to_millis(0, 0), 0);
    assert_eq!(to_millis(1, 0), 1000);
    assert_eq!(to_millis(1_656_000_000, 0), 1_656_000_000_000);
}

#[test]
fn millis_drop_what_is_below_a_millisecond() {
    assert_eq!(to_millis(0, 999_999), 0);
    assert_eq!(to_millis(0, 1_000_000), 1);
    assert_eq!(to_millis(1, 500_000_000), 1500);
    assert_eq!(to_millis(2, 999_999_999), 2999);
}

#[test]
fn millis_stop_at_the_largest_value() {
    assert_eq!(to_millis(u64::MAX, 0), u64::MAX);
    assert_eq!(to_millis(u64::MAX / 1000 + 1, 0), u64::MAX);
    assert_eq!(to_millis(u64::MAX / 1000, 0), 18_446_744_073_709_551_000);
    assert_eq!(to_millis(u64::MAX / 1000, 615_000_000), u64::MAX);
    assert_eq!(to_millis(u64::MAX / 1000, 616_000_000), u64::MAX);
    assert_eq!(to_millis(u64::MAX / 1000, 614_999_999), u64::MAX - 1);
}

#[test]
fn the_clock_is_read_in_milliseconds() {
    let before = wall_clock_millis();
    let read = now_millis();
    let after = wall_clock_millis();
    assert!(before <= read + 1000, "{} then {}", before, read);
    assert!(read <= after + 1000, "{} then {}", read, after);
}

#[test]
fn a_new_event_is_stamped_with_the_present() {
    let before = wall_clock_millis();
    let event = Event::new(String::from("peg-in done"));
    let after = wall_clock_millis();
    assert_eq!(event.data(), "peg-in done");
    assert!(before <= event.timestamp() + 1000);
    assert!(event.timestamp() <= after + 1000);
    assert!(event.timestamp() > 1_600_000_000_000);
}

#[test]
fn an_event_keeps_what_it_was_given() {
    let event = Event::with_timestamp(42, String::from("spent"));
    assert_eq!(event.timestamp(), 42);
    assert_eq!(event.data(), "spent");
    let empty = Event::with_timestamp(u64::MAX, String::new());
    assert_eq!(empty.timestamp(), u64::MAX);
    assert_eq!(empty.data(), "");
}

#[test]
fn a_cloned_event_is_the_same_event() {
    let event = Event::with_timestamp(7, String::from("reissued"));
    let copy = event.clone();
    assert_eq!(copy.timestamp(), 7);
    assert_eq!(copy.data(), "reissued");
    assert_eq!(event.timestamp(), 7);
    assert_eq!(event.data(), "reissued");
}

#[test]
fn a_clock_before_the_epoch_reads_as_zero() {
    assert_eq!(to_timestamp(None), 0);
}

#[test]
fn a_reading_is_counted_in_milliseconds() {
    assert_eq!(to_timestamp(Some((0, 0))), 0);
    assert_eq!(to_timestamp(Some((1_656_000_000, 123_456_789))), 1_656_000_000_123);
    assert_eq!(to_timestamp(Some((u64::MAX, 999_999_999))), u64::MAX);
}
