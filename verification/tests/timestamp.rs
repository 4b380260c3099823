use slack_export::timestamp::{Timestamp, MAX_SECONDS_WIDTH};

#[test]
fn parse_reads_whole_seconds() {
    assert_eq!(Timestamp::parse("1.0"), Some(Timestamp { seconds: 1, nanos: 0 }));
    assert_eq!(Timestamp::parse("0"), Some(Timestamp { seconds: 0, nanos: 0 }));
    assert_eq!(
        Timestamp::parse("1700000000"),
        Some(Timestamp { seconds: 1_700_000_000, nanos: 0 })
    );
}

#[test]
fn parse_reads_fractions_as_nanoseconds() {
    assert_eq!(
        Timestamp::parse("1355517523.000005"),
        Some(Timestamp { seconds: 1_355_517_523, nanos: 5_000 })
    );
    assert_eq!(Timestamp::parse("2.5"), Some(Timestamp { seconds: 2, nanos: 500_000_000 }));
    assert_eq!(
        Timestamp::parse("7.123456789"),
        Some(Timestamp { seconds: 7, nanos: 123_456_789 })
    );
}

#[test]
fn parse_counts_downwards_before_the_epoch() {
    assert_eq!(Timestamp::parse("-1"), Some(Timestamp { seconds: -1, nanos: 0 }));
    assert_eq!(Timestamp::parse("-1.5"), Some(Timestamp { seconds: -2, nanos: 500_000_000 }));
    assert_eq!(Timestamp::parse("+3"), Some(Timestamp { seconds: 3, nanos: 0 }));
}

#[test]
fn parse_refuses_what_is_no_number() {
    assert_eq!(Timestamp::parse(""), None);
    assert_eq!(Timestamp::parse("abc"), None);
    assert_eq!(Timestamp::parse("1.2.3"), None);
    assert_eq!(Timestamp::parse("1."), None);
    assert_eq!(Timestamp::parse(".5"), None);
    assert_eq!(Timestamp::parse("1,5"), None);
    assert_eq!(Timestamp::parse(" 1"), None);
    assert_eq!(Timestamp::parse("1.0000000001"), None);
}

#[test]
fn parse_stops_at_the_widest_seconds() {
    assert_eq!(MAX_SECONDS_WIDTH, 12);
    assert_eq!(
        Timestamp::parse("999999999999"),
        Some(Timestamp { seconds: 999_999_999_999, nanos: 0 })
    );
    assert_eq!(
        Timestamp::parse("999999999999.25"),
        Some(Timestamp { seconds: 999_999_999_999, nanos: 250_000_000 })
    );
    assert_eq!(
        Timestamp::parse("-99999999999"),
        Some(Timestamp { seconds: -99_999_999_999, nanos: 0 })
    );
    assert_eq!(Timestamp::parse("1000000000000"), None);
    assert_eq!(Timestamp::parse("-999999999999"), None);
    assert_eq!(Timestamp::parse("99999999999999999999999999"), None);
}
