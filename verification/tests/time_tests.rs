use yagit::time::{Date, DateTime, FullDate, Time};

fn t(secs: i64, off: i32) -> Time {
    Time { seconds: secs, offset_minutes: off }
}

#[test]
fn epoch_renders() {
    assert_eq!(DateTime(t(0, 0)).render(), "1970-01-01 00:00");
    assert_eq!(Date(t(0, 0)).render(), "01/01/1970 00:00");
    assert_eq!(FullDate(t(0, 0)).render(), "Thu, 01 Jan 1970 00:00:00 +0000");
}

#[test]
fn modern_date_renders() {
    // 2024-03-15 12:34:56 UTC
    let ts = t(1710506096, 0);
    assert_eq!(DateTime(ts).render(), "2024-03-15 12:34");
    assert_eq!(Date(ts).render(), "15/03/2024 12:34");
    assert_eq!(FullDate(ts).render(), "Fri, 15 Mar 2024 12:34:56 +0000");
}

#[test]
fn offsets_shift_the_civil_time() {
    // Midnight UTC seen from UTC+2 is 02:00 the same day.
    assert_eq!(DateTime(t(0, 120)).render(), "1970-01-01 02:00");
    // Midnight UTC seen from UTC-1:30 is the previous evening.
    assert_eq!(DateTime(t(0, -90)).render(), "1969-12-31 22:30");
    assert_eq!(FullDate(t(0, -90)).render(), "Wed, 31 Dec 1969 22:30:00 -0001");
    assert_eq!(FullDate(t(0, 120)).render(), "Thu, 01 Jan 1970 02:00:00 +0002");
}

#[test]
fn before_the_epoch() {
    assert_eq!(FullDate(t(-1, 0)).render(), "Wed, 31 Dec 1969 23:59:59 +0000");
    assert_eq!(DateTime(t(-86400, 0)).render(), "1969-12-31 00:00");
}

#[test]
fn leap_day() {
    // 2024-02-29 00:00:00 UTC = 1704067200 + 59 days
    let ts = t(1704067200 + 59 * 86400, 0);
    assert_eq!(DateTime(ts).render(), "2024-02-29 00:00");
}
