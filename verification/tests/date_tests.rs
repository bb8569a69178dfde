use chrono::{Datelike, Timelike};

use workq::date_ops::{
    add_days, date_of_days, day_number_of, days_ago, format_time, format_time_from, from,
    to_display_date, to_input_date_from, to_timestamp_from, to_year_only, Date, Time,
};

#[test]
fn from_matches_chrono_on_sample_timestamps() {
    let samples: Vec<i64> = vec![
        0,
        1,
        86399,
        86400,
        951782399,  // just before a leap day
        951782400,  // a leap day of a leap century year
        1709164800, // a leap day of an ordinary leap year
        1709251199,
        4102444800, // into the next century
        2147483647,
    ];
    for ts in samples {
        let ours = from(ts);
        let theirs = chrono::DateTime::from_timestamp(ts, 0).unwrap().naive_utc();
        assert_eq!(ours.date.year, theirs.year() as i64, "year for {}", ts);
        assert_eq!(ours.date.month as u32, theirs.month(), "month for {}", ts);
        assert_eq!(ours.date.day as u32, theirs.day(), "day for {}", ts);
        assert_eq!(ours.time.hour as u32, theirs.hour(), "hour for {}", ts);
        assert_eq!(ours.time.minute as u32, theirs.minute(), "minute for {}", ts);
        assert_eq!(ours.time.second as u32, theirs.second(), "second for {}", ts);
    }
}

#[test]
fn timestamp_round_trips() {
    for ts in [0i64, 1, 86399, 86400, 951782400, 1709164800, 4102444800] {
        let dt = from(ts);
        assert_eq!(to_timestamp_from(&dt), ts.to_string());
    }
}

#[test]
fn year_text_of_timestamp() {
    assert_eq!(to_year_only(0), "1970");
    assert_eq!(to_year_only(951782400), "2000");
    assert_eq!(to_year_only(4102444800), "2100");
}

#[test]
fn add_days_steps_over_leap_day() {
    let date = Date { year: 2024, month: 2, day: 28 };
    let next = add_days(date, 1);
    assert_eq!((next.year, next.month, next.day), (2024, 2, 29));
    let after = add_days(next, 1);
    assert_eq!((after.year, after.month, after.day), (2024, 3, 1));
    let back = add_days(after, -2);
    assert_eq!((back.year, back.month, back.day), (2024, 2, 28));
}

#[test]
fn day_numbers_invert() {
    for days in [0u64, 1, 364, 365, 366, 10957, 20000] {
        let date = date_of_days(days);
        assert_eq!(day_number_of(&date), days);
    }
}

#[test]
fn days_ago_wording() {
    let now = 1_000_000_000u64;
    assert_eq!(days_ago(now, now), "Today");
    assert_eq!(days_ago(now - 3600, now), "Today");
    assert_eq!(days_ago(now - 86400, now), "Yesterday");
    assert_eq!(days_ago(now - 5 * 86400, now), "5 days ago");
    // a timestamp in the future counts negative days, sign and all
    assert_eq!(days_ago(now + 3 * 86400, now), "-3 days ago");
}

#[test]
fn input_and_display_formats_match_chrono() {
    for ts in [0i64, 951782400, 1709164800 + 3661] {
        let ours = from(ts);
        let theirs = chrono::DateTime::from_timestamp(ts, 0).unwrap().naive_utc();
        assert_eq!(to_input_date_from(&ours), theirs.format("%Y-%m-%d").to_string());
        assert_eq!(to_display_date(&ours), theirs.format("%v").to_string());
    }
}

#[test]
fn twelve_hour_formats_match_chrono() {
    for (h, m) in [(0u32, 30u32), (9, 5), (11, 59), (12, 0), (13, 45), (23, 1)] {
        let ours = format_time_from(&Time { hour: h as u8, minute: m as u8, second: 0 });
        let theirs = chrono::NaiveTime::from_hms_opt(h, m, 0)
            .unwrap()
            .format("%-I:%M %p")
            .to_string();
        assert_eq!(ours, theirs, "for {}:{}", h, m);
    }
}

#[test]
fn format_time_parses_and_rejects() {
    assert_eq!(format_time("09:05").unwrap(), "9:05 AM");
    assert_eq!(format_time("17:45").unwrap(), "5:45 PM");
    assert_eq!(format_time("00:30").unwrap(), "12:30 AM");
    assert_eq!(format_time("12:00").unwrap(), "12:00 PM");
    assert!(format_time("24:00").is_none());
    assert!(format_time("12:60").is_none());
    assert!(format_time("9:05").is_none());
    assert!(format_time("ab:cd").is_none());
    assert!(format_time("").is_none());
}
