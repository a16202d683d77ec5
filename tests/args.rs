use chrono::TimeZone;
use clk::args::{Duration, Timestamp};

#[test]
fn test_parse_duration() {
    assert_eq!("3".parse::<Duration>(), Ok(Duration { seconds: 3 }));
    assert_eq!("55".parse::<Duration>(), Ok(Duration { seconds: 55 }));
    assert_eq!(
        "65".parse::<Duration>(),
        Err("\"65\" is invalid because 65 >= 60".to_string())
    );
    assert_eq!(
        "65:30".parse::<Duration>(),
        Err("\"65:30\" is invalid because 65 >= 60".to_string())
    );
    assert_eq!(
        "04:05:06:30".parse::<Duration>(),
        Err("\"04:05:06:30\" has to many components".to_string())
    );
    assert_eq!(
        "05:06:30".parse::<Duration>(),
        Ok(Duration {
            seconds: 5 * 3600 + 6 * 60 + 30
        })
    );
}

#[test]
fn test_parse_timestamp() {
    let expected = chrono::Local.with_ymd_and_hms(2024, 09, 23, 16, 30, 0).unwrap();
    assert_eq!(
        "2024-9-23T16:30:00".parse::<Timestamp>(),
        Ok(Timestamp {
            seconds: expected.timestamp(),
            nanos: expected.timestamp_subsec_nanos(),
        })
    );
}

#[test]
fn duration_component_not_a_number() {
    assert_eq!(
        Duration::parse("1:x"),
        Err("\"1:x\" is invalid because \"x\" is not a number".to_string())
    );
    assert_eq!(
        Duration::parse(""),
        Err("\"\" is invalid because \"\" is not a number".to_string())
    );
}

#[test]
fn duration_plus_sign_and_minutes() {
    assert_eq!(Duration::parse("+1:05"), Ok(Duration { seconds: 65 }));
    assert_eq!(Duration::parse("59:59:59"), Ok(Duration { seconds: 215999 }));
}

#[test]
fn timestamp_not_a_date() {
    let e = Timestamp::parse("yesterday").unwrap_err();
    assert!(e.starts_with("\"yesterday\" is not a date time: "));
}

#[test]
fn timestamp_from_local_mapping() {
    assert_eq!(
        Timestamp::from_local(Some((10, 5))),
        Ok(Timestamp { seconds: 10, nanos: 5 })
    );
    assert_eq!(
        Timestamp::from_local(None),
        Err("unable to convert date to localtime".to_string())
    );
}
