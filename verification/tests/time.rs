use twapi_v2::time::UtcTime;

#[test]
fn utc_time_writes_date_and_time_without_colons() {
    assert_eq!(UtcTime::from_timestamp(0, 0).unwrap().compact(), "1970-01-01T000000Z");
    assert_eq!(UtcTime::from_timestamp(1699999999, 0).unwrap().compact(), "2023-11-14T221319Z");
    assert_eq!(UtcTime::from_timestamp(1700000000, 999_999_999).unwrap().compact(), "2023-11-14T221320Z");
    assert_eq!(UtcTime::from_timestamp(-1, 0).unwrap().compact(), "1969-12-31T235959Z");
    assert_eq!(UtcTime::from_timestamp(253402300799, 0).unwrap().compact(), "9999-12-31T235959Z");
}

#[test]
fn utc_time_keeps_seconds_and_nanoseconds() {
    let time = UtcTime::from_timestamp(1699999999, 123).unwrap();
    assert_eq!(time.timestamp(), 1699999999);
    assert_eq!(time.timestamp_subsec_nanos(), 123);
}

#[test]
fn utc_time_needs_a_date() {
    assert!(UtcTime::from_timestamp(i64::MAX, 0).is_none());
    assert!(UtcTime::from_timestamp(i64::MIN, 0).is_none());
    assert!(UtcTime::from_timestamp(0, 1_000_000_000).is_none());
    assert!(UtcTime::from_timestamp(0, u32::MAX).is_none());
}

#[test]
fn utc_time_agrees_with_chrono() {
    for secs in [0i64, 1, 59, 86_399, 86_400, 951_782_400, 1_709_164_800, 4_102_444_800] {
        let expected = chrono::DateTime::from_timestamp(secs, 0).unwrap().format("%Y-%m-%dT%H%M%SZ").to_string();
        assert_eq!(UtcTime::from_timestamp(secs, 0).unwrap().compact(), expected);
    }
}

#[test]
fn utc_time_reads_timestamps_of_the_api() {
    let time = UtcTime::parse("2023-11-14T22:13:19.000Z").unwrap();
    assert_eq!(time.timestamp(), 1699999999);
    assert_eq!(time.timestamp_subsec_nanos(), 0);
    assert_eq!(time.compact(), "2023-11-14T221319Z");
    let fraction = UtcTime::parse("2023-11-14T22:13:19.250+01:00").unwrap();
    assert_eq!(fraction.timestamp(), 1699999999 - 3600);
    assert_eq!(fraction.timestamp_subsec_nanos(), 250_000_000);
    for bad in ["", "yesterday", "2023-11-14", "2023-13-14T22:13:19Z", "2023-11-14T22:13:19", "1699999999"] {
        assert!(UtcTime::parse(bad).is_none(), "{}", bad);
    }
}
