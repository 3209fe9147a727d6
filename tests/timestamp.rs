use std::str::FromStr;

use chrono::{DateTime, NaiveDate, Utc};
use recent_count::timestamp::{parse_timestamp, parse_timestamp_bytes, Instant, TimestampError};

fn chrono_millis(s: &str) -> i64 {
    DateTime::<Utc>::from_str(s).unwrap().timestamp_millis()
}

#[test]
fn basic() {
    const S: &str = "2015-10-27T17:38:38.000Z";
    let dt = chrono_millis(S);
    let dt2 = parse_timestamp(S).unwrap();
    assert_eq!(dt, dt2.millis());
}

#[test]
fn agrees_with_chrono_on_many_dates() {
    let samples = [
        "1970-01-01T00:00:00.000Z",
        "1969-12-31T23:59:59.999Z",
        "0000-01-01T00:00:00.000Z",
        "9999-12-31T23:59:59.999Z",
        "2000-02-29T12:34:56.789Z",
        "1900-03-01T00:00:00.001Z",
        "2024-02-29T23:59:59.999Z",
        "2100-12-31T00:00:00.000Z",
        "1600-02-29T06:07:08.009Z",
    ];
    for s in samples.iter() {
        assert_eq!(parse_timestamp(s).unwrap().millis(), chrono_millis(s), "{}", s);
    }
}

#[test]
fn agrees_with_chrono_on_every_day_of_some_years() {
    for year in [1999, 2000, 2001, 2023, 2024].iter() {
        let mut day = NaiveDate::from_ymd_opt(*year, 1, 1).unwrap();
        while day.format("%Y").to_string() == year.to_string() {
            let s = format!("{}T05:06:07.089Z", day.format("%Y-%m-%d"));
            assert_eq!(parse_timestamp(&s).unwrap().millis(), chrono_millis(&s), "{}", s);
            day = day.succ_opt().unwrap();
        }
    }
}

#[test]
fn epoch_is_zero() {
    assert_eq!(parse_timestamp("1970-01-01T00:00:00.000Z"), Ok(Instant { millis: 0 }));
    assert_eq!(parse_timestamp("1970-01-02T00:00:00.001Z").unwrap().millis(), 86_400_001);
}

#[test]
fn invalid_month_is_invalid_value() {
    assert_eq!(parse_timestamp("2015-13-01T00:00:00.000Z"), Err(TimestampError::InvalidValue));
}

#[test]
fn missing_millis_is_invalid_format() {
    assert_eq!(parse_timestamp("2015-10-27T17:38:38Z"), Err(TimestampError::InvalidFormat));
}

#[test]
fn calendar_ranges() {
    assert_eq!(parse_timestamp("2015-00-01T00:00:00.000Z"), Err(TimestampError::InvalidValue));
    assert_eq!(parse_timestamp("2015-02-29T00:00:00.000Z"), Err(TimestampError::InvalidValue));
    assert_eq!(parse_timestamp("1900-02-29T00:00:00.000Z"), Err(TimestampError::InvalidValue));
    assert!(parse_timestamp("2000-02-29T00:00:00.000Z").is_ok());
    assert_eq!(parse_timestamp("2015-04-31T00:00:00.000Z"), Err(TimestampError::InvalidValue));
    assert_eq!(parse_timestamp("2015-01-00T00:00:00.000Z"), Err(TimestampError::InvalidValue));
    assert_eq!(parse_timestamp("2015-01-01T24:00:00.000Z"), Err(TimestampError::InvalidValue));
    assert_eq!(parse_timestamp("2015-01-01T00:60:00.000Z"), Err(TimestampError::InvalidValue));
    assert_eq!(parse_timestamp("2015-01-01T00:00:60.000Z"), Err(TimestampError::InvalidValue));
}

#[test]
fn format_errors() {
    assert_eq!(parse_timestamp(""), Err(TimestampError::InvalidFormat));
    assert_eq!(parse_timestamp("2015-10-27T17:38:38.000+00:00"), Err(TimestampError::InvalidFormat));
    assert_eq!(parse_timestamp("2015/10/27T17:38:38.000Z"), Err(TimestampError::InvalidFormat));
    assert_eq!(parse_timestamp("2015-1a-27T17:38:38.000Z"), Err(TimestampError::InvalidFormat));
    assert_eq!(parse_timestamp("2015-10-27 17:38:38.000Z"), Err(TimestampError::InvalidFormat));
    assert_eq!(parse_timestamp("+015-10-27T17:38:38.000Z"), Err(TimestampError::InvalidFormat));
    assert_eq!(parse_timestamp_bytes(b"2015-10-27T17:38:38.00\xffZ"), Err(TimestampError::InvalidFormat));
}

#[test]
fn instant_order() {
    let a = Instant::from_millis(5);
    let b = Instant::from_millis(6);
    assert!(b.is_after(&a));
    assert!(!a.is_after(&b));
    assert!(!a.is_after(&a));
}
