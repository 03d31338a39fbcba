//! Timestamp parsing against the fixed pattern, cross-checked with chrono.

use iot_ingest::timestamp::{epoch_or_zero, parse_timestamp};

#[test]
fn epoch_itself_parses_to_zero() {
    assert_eq!(parse_timestamp("1970-01-01T00:00:00"), Some(0));
    assert_eq!(epoch_or_zero("1970-01-01T00:00:00"), 0);
}

#[test]
fn known_instants_parse_exactly() {
    assert_eq!(parse_timestamp("1970-01-02T00:00:00"), Some(86_400));
    assert_eq!(parse_timestamp("2000-01-01T00:00:00"), Some(946_684_800));
    assert_eq!(parse_timestamp("2023-05-06T07:08:09"), Some(1_683_356_889));
    // Before the epoch.
    assert_eq!(parse_timestamp("1969-12-31T23:59:59"), Some(-1));
}

#[test]
fn parsing_agrees_with_chrono() {
    let samples = [
        "1970-01-01T00:00:00",
        "1969-12-31T23:59:59",
        "1900-02-28T12:00:00",
        "1600-03-01T00:00:01",
        "2000-02-29T23:59:59",
        "2023-05-06T07:08:09",
        "2024-02-29T00:00:00",
        "2100-02-28T10:20:30",
        "9999-12-31T23:59:59",
        "0001-01-01T00:00:00",
    ];
    for s in samples {
        let ours = parse_timestamp(s).expect(s);
        let theirs = chrono::NaiveDateTime::parse_from_str(s, "%Y-%m-%dT%H:%M:%S")
            .expect(s)
            .and_utc()
            .timestamp();
        assert_eq!(ours, theirs, "timestamp {}", s);
    }
}

#[test]
fn invalid_dates_are_rejected() {
    // Not a leap year.
    assert_eq!(parse_timestamp("2023-02-29T00:00:00"), None);
    assert_eq!(parse_timestamp("1900-02-29T00:00:00"), None);
    // A leap year is accepted.
    assert_eq!(parse_timestamp("2000-02-29T00:00:00").is_some(), true);
    assert_eq!(parse_timestamp("2023-00-01T00:00:00"), None);
    assert_eq!(parse_timestamp("2023-13-01T00:00:00"), None);
    assert_eq!(parse_timestamp("2023-04-31T00:00:00"), None);
    assert_eq!(parse_timestamp("2023-01-00T00:00:00"), None);
    assert_eq!(parse_timestamp("2023-01-01T24:00:00"), None);
    assert_eq!(parse_timestamp("2023-01-01T00:60:00"), None);
    assert_eq!(parse_timestamp("2023-01-01T00:00:60"), None);
}

#[test]
fn malformed_text_is_rejected_and_defaults_to_epoch() {
    let bad = [
        "",
        "not a time",
        "2023-05-06 07:08:09",
        "2023-05-06T07:08",
        "2023-05-06T07:08:091",
        "23-05-06T07:08:09",
        "2023/05/06T07:08:09",
        "2023-05-06T07:08:0x",
        "٢٠٢٣-05-06T07:08:09",
    ];
    for s in bad {
        assert_eq!(parse_timestamp(s), None, "input {:?}", s);
        assert_eq!(epoch_or_zero(s), 0, "input {:?}", s);
    }
}
