use jet_lag_core::calendar::{ServiceCalendar, ServiceDate, Weekday, WeekdayFlags};
use jet_lag_core::identifiers::{ServiceIdentifier, StationIdentifier};
use jet_lag_core::transit::{RouteType, StopEvent, TransitError};

/// The library's day numbers count from 1970-01-01.
fn date(y: i32, m: u32, d: u32) -> ServiceDate {
    let nd = chrono::NaiveDate::from_ymd_opt(y, m, d).unwrap();
    let epoch = chrono::NaiveDate::from_ymd_opt(1970, 1, 1).unwrap();
    ServiceDate::new(nd.signed_duration_since(epoch).num_days())
}

#[test]
fn test_stop_event_delay() {
    let event = StopEvent::new(StationIdentifier::new("station_1"), 1000, 1020, 1);

    let delayed = event.with_delay(300).unwrap();
    assert_eq!(delayed.arrival, 1300);
    assert_eq!(delayed.departure, 1320);

    // Negative delay shouldn't go below 0
    let early = event.with_delay(-2000).unwrap();
    assert_eq!(early.arrival, 0);
    assert_eq!(early.departure, 0);

    // Very large negative delay that would cause departure < arrival should error
    let event2 = StopEvent::new(StationIdentifier::new("station_1"), 1000, 1050, 1);
    // Delay of -1030 would make arrival = 0, departure = 20, which is valid
    assert!(event2.with_delay(-1030).is_ok());

    // But delay of -1100 would make arrival = 0, but departure would want to be negative
    // so it gets clamped to 0, making departure = arrival, which is valid
    assert!(event2.with_delay(-1100).is_ok());
}

#[test]
fn test_route_type_from_gtfs() {
    assert_eq!(RouteType::from_gtfs(1), Some(RouteType::Subway));
    assert_eq!(RouteType::from_gtfs(3), Some(RouteType::Bus));
    assert_eq!(RouteType::from_gtfs(99), None);
}

#[test]
fn test_weekday_flags() {
    let mut flags = WeekdayFlags::new();
    flags.set(Weekday::Mon);
    flags.set(Weekday::Wed);
    flags.set(Weekday::Fri);

    assert!(flags.contains(Weekday::Mon));
    assert!(!flags.contains(Weekday::Tue));
    assert!(flags.contains(Weekday::Wed));
}

#[test]
fn test_service_calendar() {
    let calendar = ServiceCalendar {
        service_id: ServiceIdentifier::new("weekday"),
        start_date: date(2024, 1, 1),
        end_date: date(2024, 12, 31),
        weekdays: WeekdayFlags::from_bools(true, true, true, true, true, false, false),
        added_dates: vec![date(2024, 7, 4)], // Add July 4th (Thursday)
        removed_dates: vec![date(2024, 1, 1)], // Remove New Year's Day (Monday)
    };

    // Regular weekday
    assert!(calendar.runs_on(date(2024, 1, 2))); // Tuesday

    // Weekend
    assert!(!calendar.runs_on(date(2024, 1, 6))); // Saturday

    // Removed date
    assert!(!calendar.runs_on(date(2024, 1, 1))); // Monday but removed

    // Added date
    assert!(calendar.runs_on(date(2024, 7, 4))); // Thursday and added

    // Out of range
    assert!(!calendar.runs_on(date(2025, 1, 1)));
}

#[test]
fn test_weekday_of_epoch() {
    // 1970-01-01 was a Thursday, and the numbering counts from Monday.
    assert_eq!(ServiceDate::new(0).weekday(), Weekday::Thu);
    assert_eq!(date(1970, 1, 1).weekday(), Weekday::Thu);
    assert_eq!(date(2024, 1, 2).weekday(), Weekday::Tue);
    assert_eq!(date(1969, 12, 31).weekday(), Weekday::Wed);
    assert_eq!(Weekday::Mon.number_from_monday(), 1);
    assert_eq!(Weekday::Sun.number_from_monday(), 7);
}

#[test]
fn test_unset_and_messages() {
    let mut flags = WeekdayFlags::from_bools(true, true, false, false, false, false, true);
    flags.unset(Weekday::Mon);
    assert!(!flags.contains(Weekday::Mon));
    assert!(flags.contains(Weekday::Tue));
    assert!(flags.contains(Weekday::Sun));

    let event = StopEvent::new(StationIdentifier::new("s"), 100, 50, 1);
    let err = event.with_delay(0).unwrap_err();
    assert!(matches!(err, TransitError::InvalidData(_)));
    assert_eq!(err.message(), "invalid data");
}
