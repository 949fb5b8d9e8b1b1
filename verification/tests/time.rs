use chrono::{DateTime, Datelike, NaiveDate};
use memolanes_core::time::{
    CalendarDate, Timestamp, MAX_EPOCH_DAYS, MIN_EPOCH_DAYS, NANOS_LIMIT, NANOS_PER_SECOND,
    SECONDS_PER_DAY,
};

#[test]
fn date_range_is_that_of_the_calendar() {
    assert_eq!(MIN_EPOCH_DAYS, -96_465_292);
    assert_eq!(MAX_EPOCH_DAYS, 95_026_236);
    assert_eq!(NaiveDate::MIN.num_days_from_ce() - 719_163, MIN_EPOCH_DAYS);
    assert_eq!(NaiveDate::MAX.num_days_from_ce() - 719_163, MAX_EPOCH_DAYS);
    assert_eq!(NaiveDate::MIN.year(), -262_143);
    assert_eq!(NaiveDate::MAX.year(), 262_142);
}

#[test]
fn date_range_edges() {
    assert!(CalendarDate::from_days_since_epoch(MIN_EPOCH_DAYS).is_some());
    assert!(CalendarDate::from_days_since_epoch(MIN_EPOCH_DAYS - 1).is_none());
    assert!(CalendarDate::from_days_since_epoch(MAX_EPOCH_DAYS).is_some());
    assert!(CalendarDate::from_days_since_epoch(MAX_EPOCH_DAYS + 1).is_none());
    assert!(CalendarDate::from_days_since_epoch(i32::MIN).is_none());
    assert!(CalendarDate::from_days_since_epoch(i32::MAX).is_none());
    assert!(CalendarDate::from_days_since_epoch(0).is_some());
}

#[test]
fn date_keeps_its_day_count() {
    for days in [0, 1, -1, 13_036, -719_162, MIN_EPOCH_DAYS, MAX_EPOCH_DAYS] {
        let date = CalendarDate::from_days_since_epoch(days).unwrap();
        assert_eq!(date.days_since_epoch(), days);
    }
}

#[test]
fn dates_are_told_apart_by_their_day_count() {
    let a = CalendarDate::from_days_since_epoch(13_036).unwrap();
    let b = CalendarDate::from_days_since_epoch(13_036).unwrap();
    let c = CalendarDate::from_days_since_epoch(13_037).unwrap();
    assert_eq!(a, b);
    assert_ne!(a, c);
}

#[test]
fn seconds_range_edges() {
    let first: i64 = -8_334_601_228_800;
    let last: i64 = 8_210_266_876_799;
    assert_eq!(first, i64::from(MIN_EPOCH_DAYS) * SECONDS_PER_DAY);
    assert_eq!(
        last,
        i64::from(MAX_EPOCH_DAYS) * SECONDS_PER_DAY + SECONDS_PER_DAY - 1
    );
    assert_eq!(DateTime::<chrono::Utc>::MIN_UTC.timestamp(), first);
    assert_eq!(DateTime::<chrono::Utc>::MAX_UTC.timestamp(), last);
    assert!(Timestamp::from_secs(first).is_some());
    assert!(Timestamp::from_secs(first - 1).is_none());
    assert!(Timestamp::from_secs(last).is_some());
    assert!(Timestamp::from_secs(last + 1).is_none());
    assert!(Timestamp::from_secs(i64::MIN).is_none());
    assert!(Timestamp::from_secs(i64::MAX).is_none());
}

#[test]
fn timestamp_keeps_seconds_and_nanoseconds() {
    for (secs, nanos) in [
        (0i64, 0u32),
        (1_431_648_000, 0),
        (1_431_648_000, 999_999_999),
        (-1, 1),
        (-86_401, 500),
        (8_210_266_876_799, 999_999_999),
        (-8_334_601_228_800, 0),
    ] {
        let t = Timestamp::new(secs, nanos).unwrap();
        assert_eq!(t.timestamp(), secs);
        assert_eq!(t.timestamp_subsec_nanos(), nanos);
    }
}

#[test]
fn from_secs_is_the_whole_second() {
    let t = Timestamp::from_secs(1_431_648_000).unwrap();
    assert_eq!(t.timestamp(), 1_431_648_000);
    assert_eq!(t.timestamp_subsec_nanos(), 0);
    assert_eq!(Some(t), Timestamp::new(1_431_648_000, 0));
}

#[test]
fn leap_second_only_in_the_last_second_of_a_minute() {
    assert_eq!(NANOS_PER_SECOND, 1_000_000_000);
    assert_eq!(NANOS_LIMIT, 2_000_000_000);
    assert!(Timestamp::new(59, NANOS_PER_SECOND).is_some());
    assert!(Timestamp::new(59, NANOS_LIMIT - 1).is_some());
    assert!(Timestamp::new(59, NANOS_LIMIT).is_none());
    assert!(Timestamp::new(58, NANOS_PER_SECOND).is_none());
    assert!(Timestamp::new(60, NANOS_PER_SECOND).is_none());
    assert!(Timestamp::new(0, NANOS_PER_SECOND).is_none());
    assert!(Timestamp::new(0, NANOS_PER_SECOND - 1).is_some());
    assert!(Timestamp::new(-1, NANOS_PER_SECOND).is_some());
    assert!(Timestamp::new(-2, NANOS_PER_SECOND).is_none());
    assert!(Timestamp::new(-61, 1_500_000_000).is_some());
    assert!(Timestamp::new(119, u32::MAX).is_none());
    let leap = Timestamp::new(1_483_228_799, 1_250_000_000).unwrap();
    assert_eq!(leap.timestamp(), 1_483_228_799);
    assert_eq!(leap.timestamp_subsec_nanos(), 1_250_000_000);
}

#[test]
fn timestamps_are_told_apart_by_seconds_and_nanoseconds() {
    let a = Timestamp::new(10, 5).unwrap();
    assert_eq!(a, Timestamp::new(10, 5).unwrap());
    assert_ne!(a, Timestamp::new(10, 6).unwrap());
    assert_ne!(a, Timestamp::new(11, 5).unwrap());
}
