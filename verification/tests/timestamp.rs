use schema_tracker::timestamp::Timestamp;

#[test]
fn rfc3339_of_the_epoch() {
    let epoch = Timestamp { secs: 0, nanos: 0 };
    assert_eq!(epoch.to_rfc3339(), Some("1970-01-01T00:00:00+00:00".to_string()));
}

#[test]
fn rfc3339_of_a_day_in_2015() {
    let day = Timestamp { secs: 1431648000, nanos: 0 };
    assert_eq!(day.to_rfc3339(), Some("2015-05-15T00:00:00+00:00".to_string()));
}

#[test]
fn rfc3339_shows_the_fraction_of_a_second() {
    let nanos = Timestamp { secs: 1431648000, nanos: 123456789 };
    assert_eq!(nanos.to_rfc3339(), Some("2015-05-15T00:00:00.123456789+00:00".to_string()));
    let millis = Timestamp { secs: 1431648000, nanos: 250000000 };
    assert_eq!(millis.to_rfc3339(), Some("2015-05-15T00:00:00.250+00:00".to_string()));
}

#[test]
fn rfc3339_before_the_epoch() {
    let before = Timestamp { secs: -1, nanos: 0 };
    assert_eq!(before.to_rfc3339(), Some("1969-12-31T23:59:59+00:00".to_string()));
}

#[test]
fn file_stamp_runs_from_year_to_second() {
    assert_eq!(
        Timestamp { secs: 0, nanos: 0 }.to_file_stamp(),
        Some("19700101_000000".to_string())
    );
    assert_eq!(
        Timestamp { secs: 1431648000 + 3600 * 13 + 60 * 7 + 9, nanos: 999999999 }.to_file_stamp(),
        Some("20150515_130709".to_string())
    );
}

#[test]
fn numbers_that_stand_for_no_instant() {
    let far = Timestamp { secs: i64::MAX, nanos: 0 };
    assert_eq!(far.to_rfc3339(), None);
    assert_eq!(far.to_file_stamp(), None);
    let past = Timestamp { secs: i64::MIN, nanos: 0 };
    assert_eq!(past.to_rfc3339(), None);
    let odd = Timestamp { secs: 0, nanos: 2_000_000_000 };
    assert_eq!(odd.to_rfc3339(), None);
    assert_eq!(odd.to_file_stamp(), None);
}
