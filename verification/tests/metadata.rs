use media_classifier::metadata::{exif_date_candidates, parse_exif_datetime, ClockReading};
use media_classifier::template::{format_date, DateStamp};

#[test]
fn test_parse_exif_datetime() {
    let date1 = parse_exif_datetime("2025:11:18 14:30:45");
    assert!(date1.is_some());

    let date2 = parse_exif_datetime("\"2025:11:18 14:30:45\"");
    assert!(date2.is_some());

    let date3 = parse_exif_datetime("2025-11-18 14:30:45");
    assert!(date3.is_some());
}

#[test]
fn test_format_date() {
    let datetime_str = "2025:11:18 14:30:45";
    if let Some(date) = parse_exif_datetime(datetime_str) {
        assert_eq!(format_date(&DateStamp::from_reading(date, 0)).unwrap(), "20251118");
    }
}

#[test]
fn exif_dates_are_read_field_by_field() {
    let expected = ClockReading {
        year: 2025,
        month: 11,
        day: 18,
        hour: 14,
        minute: 30,
        second: 45,
        nanosecond: 0,
    };
    assert_eq!(parse_exif_datetime("2025:11:18 14:30:45"), Some(expected));
    assert_eq!(parse_exif_datetime("2025-11-18 14:30:45"), Some(expected));
    assert_eq!(parse_exif_datetime("\"\"  2025:11:18 14:30:45 \"\""), Some(expected));
    assert_eq!(parse_exif_datetime("  \"2025:11:18 14:30:45\"  "), None);
}

#[test]
fn what_is_no_exif_date_gives_none() {
    assert_eq!(parse_exif_datetime(""), None);
    assert_eq!(parse_exif_datetime("\"\""), None);
    assert_eq!(parse_exif_datetime("2025/11/18 14:30:45"), None);
    assert_eq!(parse_exif_datetime("2025:13:18 14:30:45"), None);
    assert_eq!(parse_exif_datetime("2025:02:30 14:30:45"), None);
    assert_eq!(parse_exif_datetime("2025:11:18"), None);
    assert_eq!(parse_exif_datetime("2025:11:18 14:30:45 trailing"), None);
}

#[test]
fn the_time_taken_comes_before_the_time_changed() {
    let taken = "2020:01:02 03:04:05";
    let changed = "2021-06-07 08:09:10";
    let dates = exif_date_candidates(Some(taken), Some(changed));
    assert_eq!(dates.len(), 2);
    assert_eq!((dates[0].year, dates[0].month, dates[0].day), (2020, 1, 2));
    assert_eq!((dates[1].year, dates[1].hour, dates[1].second), (2021, 8, 10));

    let dates = exif_date_candidates(Some("unreadable"), Some(changed));
    assert_eq!(dates.len(), 1);
    assert_eq!(dates[0].year, 2021);

    let dates = exif_date_candidates(Some(taken), None);
    assert_eq!(dates.len(), 1);
    assert_eq!(dates[0].year, 2020);

    assert!(exif_date_candidates(None, None).is_empty());
    assert!(exif_date_candidates(Some(""), Some("x")).is_empty());
}

#[test]
fn a_stamp_keeps_the_reading_and_the_offset() {
    let reading = ClockReading {
        year: 2025,
        month: 11,
        day: 18,
        hour: 14,
        minute: 30,
        second: 45,
        nanosecond: 7,
    };
    let stamp = DateStamp::from_reading(reading, -3600);
    assert_eq!(
        stamp,
        DateStamp {
            year: 2025,
            month: 11,
            day: 18,
            hour: 14,
            minute: 30,
            second: 45,
            nanosecond: 7,
            utc_offset: -3600
        }
    );
    assert_eq!(format_date(&stamp).unwrap(), "20251118");
    assert_eq!(format_date(&DateStamp { day: 31, ..stamp }), None);
}
