use exam_companion::clock::Timestamp;
use exam_companion::models::exam_event::{EventKind, ExamEvent};

fn ts(year: i32, month: u32, day: u32, hour: u32, minute: u32, second: u32, nanosecond: u32) -> Timestamp {
    Timestamp { year, month, day, hour, minute, second, nanosecond }
}

#[test]
fn time_of_day_is_zero_padded() {
    assert_eq!(ts(2024, 1, 1, 9, 5, 3, 0).time_of_day(), "09:05:03");
    assert_eq!(ts(2024, 1, 1, 23, 59, 59, 999_999_999).time_of_day(), "23:59:59");
}

#[test]
fn a_leap_second_shows_as_sixty() {
    assert_eq!(ts(2016, 12, 31, 23, 59, 59, 1_000_000_000).time_of_day(), "23:59:60");
}

#[test]
fn dates_use_four_digit_years() {
    assert_eq!(ts(2024, 3, 7, 0, 0, 0, 0).date(), "2024-03-07");
    assert_eq!(ts(987, 12, 25, 0, 0, 0, 0).date(), "0987-12-25");
    assert_eq!(ts(12345, 1, 1, 0, 0, 0, 0).date(), "+12345-01-01");
    assert_eq!(ts(-5, 1, 1, 0, 0, 0, 0).date(), "-0005-01-01");
}

#[test]
fn new_events_carry_the_current_time() {
    let e = ExamEvent::new(EventKind::ExamStarted);
    assert_eq!(e.kind, EventKind::ExamStarted);
    let t = e.timestamp;
    assert!((1..=12).contains(&t.month));
    assert!((1..=31).contains(&t.day));
    assert!(t.hour < 24 && t.minute < 60 && t.second < 60);
}
