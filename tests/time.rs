use tgl_cli::time::{Timestamp, MAX_EPOCH_SECONDS, MIN_EPOCH_SECONDS};

#[test]
fn epoch_range_matches_chrono() {
    assert!(Timestamp::from_epoch_seconds(MIN_EPOCH_SECONDS).is_some());
    assert!(Timestamp::from_epoch_seconds(MAX_EPOCH_SECONDS).is_some());
    assert!(Timestamp::from_epoch_seconds(MIN_EPOCH_SECONDS - 1).is_none());
    assert!(Timestamp::from_epoch_seconds(MAX_EPOCH_SECONDS + 1).is_none());
    assert!(chrono::DateTime::from_timestamp(MIN_EPOCH_SECONDS, 0).is_some());
    assert!(chrono::DateTime::from_timestamp(MAX_EPOCH_SECONDS, 999_999_999).is_some());
    assert!(chrono::DateTime::from_timestamp(MIN_EPOCH_SECONDS - 1, 0).is_none());
    assert!(chrono::DateTime::from_timestamp(MAX_EPOCH_SECONDS + 1, 0).is_none());
}

#[test]
fn parse_utc_text() {
    let t = Timestamp::parse("2014-07-08T09:10:00Z").unwrap();
    assert_eq!(1404810600, t.seconds());
    assert_eq!(0, t.subsec_nanos());
}

#[test]
fn parse_text_with_offset_and_fraction() {
    let t = Timestamp::parse("2014-07-08T11:10:00.25+02:00").unwrap();
    assert_eq!(1404810600, t.seconds());
    assert_eq!(250_000_000, t.subsec_nanos());
}

#[test]
fn parse_leap_second_folds_into_its_second() {
    let t = Timestamp::parse("2016-12-31T23:59:60Z").unwrap();
    assert_eq!(1483228799, t.seconds());
    assert_eq!(999_999_999, t.subsec_nanos());
}

#[test]
fn parse_rejects_malformed_text() {
    assert!(Timestamp::parse("yesterday").is_err());
    assert!(Timestamp::parse("").is_err());
    assert!(Timestamp::parse("2014-13-08T09:10:00Z").is_err());
}

#[test]
fn from_parts_folds_leap_and_checks_range() {
    let t = Timestamp::from_parts(59, 1_500_000_000).unwrap();
    assert_eq!(59, t.seconds());
    assert_eq!(999_999_999, t.subsec_nanos());
    assert!(Timestamp::from_parts(0, 2_000_000_000).is_none());
    assert!(Timestamp::from_parts(MAX_EPOCH_SECONDS + 1, 0).is_none());
    let u = Timestamp::from_parts(-5, 7).unwrap();
    assert_eq!(-5, u.seconds());
    assert_eq!(7, u.subsec_nanos());
}

#[test]
fn rfc3339_text() {
    let t = Timestamp::from_epoch_seconds(1404810600).unwrap();
    assert_eq!("2014-07-08T09:10:00+00:00", t.to_rfc3339());
    let u = Timestamp::from_parts(1404810600, 500_000_000).unwrap();
    assert_eq!("2014-07-08T09:10:00.500+00:00", u.to_rfc3339());
}

#[test]
fn span_between_instants() {
    let a = Timestamp::from_parts(100, 200_000_000).unwrap();
    let b = Timestamp::from_parts(98, 700_000_000).unwrap();
    let d = a.since(&b);
    assert_eq!(1, d.num_seconds());
    assert_eq!(500_000_000, d.subsec_nanos());
    let back = b.since(&a);
    assert_eq!(-1, back.num_seconds());
    assert_eq!(-500_000_000, back.subsec_nanos());
}
