use mnemosyne_rs::wire::{
    completion_update, decode_process, parse_i64, Attribute, CompletionUpdate,
    COMPLETE_EXPRESSION, COMPLETE_WITH_EXPIRY_EXPRESSION,
};
use mnemosyne_rs::{Completion, Duration, Error, Expiration, Timestamp};

fn s(v: &str) -> Attribute {
    Attribute::S(v.to_string())
}

fn n(v: &str) -> Attribute {
    Attribute::N(v.to_string())
}

fn row(attrs: &[(&str, Attribute)]) -> Vec<(String, Attribute)> {
    attrs.iter().map(|(k, v)| (k.to_string(), v.clone())).collect()
}

#[test]
fn parse_decimal_numbers() {
    assert_eq!(parse_i64("0"), Some(0));
    assert_eq!(parse_i64("1700000000123"), Some(1_700_000_000_123));
    assert_eq!(parse_i64("+42"), Some(42));
    assert_eq!(parse_i64("-42"), Some(-42));
    assert_eq!(parse_i64("007"), Some(7));
    assert_eq!(parse_i64("9223372036854775807"), Some(i64::MAX));
    assert_eq!(parse_i64("-9223372036854775808"), Some(i64::MIN));
    assert_eq!(parse_i64("9223372036854775808"), None);
    assert_eq!(parse_i64("-9223372036854775809"), None);
    assert_eq!(parse_i64("99999999999999999999999"), None);
    assert_eq!(parse_i64(""), None);
    assert_eq!(parse_i64("-"), None);
    assert_eq!(parse_i64("+"), None);
    assert_eq!(parse_i64("1.5"), None);
    assert_eq!(parse_i64(" 1"), None);
    assert_eq!(parse_i64("12a"), None);
    assert_eq!(parse_i64("--1"), None);
    for text in ["0", "-17", "+5", "123456789012345", "x", "", "9223372036854775808"] {
        assert_eq!(parse_i64(text), text.parse::<i64>().ok(), "{}", text);
    }
}

#[test]
fn decode_full_row() {
    let attrs = row(&[
        ("id", s("\"u1\"")),
        ("processorId", s("\"alpha\"")),
        ("startedAt", n("1700000000123")),
        ("completedAt", n("1700000000456")),
        ("expiresOn", n("1700003600")),
        ("memoized", s("\"A\"")),
    ]);
    let p = decode_process(&attrs).unwrap();
    assert_eq!(p.id, "\"u1\"");
    assert_eq!(p.processor_id, "\"alpha\"");
    assert_eq!(p.started_at, Timestamp::from_millis(1_700_000_000_123));
    assert_eq!(p.completed_at, Some(Timestamp::from_millis(1_700_000_000_456)));
    assert_eq!(p.expires_on, Some(Expiration::new(Timestamp::from_secs(1_700_003_600))));
    assert_eq!(p.memoized, Some("\"A\"".to_string()));
}

#[test]
fn decode_running_row() {
    let attrs = row(&[("startedAt", n("5")), ("processorId", s("p")), ("id", s("i"))]);
    let p = decode_process(&attrs).unwrap();
    assert_eq!(p.started_at, Timestamp::from_millis(5));
    assert_eq!(p.completed_at, None);
    assert_eq!(p.expires_on, None);
    assert_eq!(p.memoized, None);
}

#[test]
fn decode_reports_missing_fields() {
    let no_id = row(&[("processorId", s("p")), ("startedAt", n("5"))]);
    assert_eq!(decode_process(&no_id).unwrap_err(), Error::Decoding("Missing 'id' field".to_string()));
    let numeric_id = row(&[("id", n("1")), ("processorId", s("p")), ("startedAt", n("5"))]);
    assert!(matches!(decode_process(&numeric_id), Err(Error::Decoding(_))));
    let no_scope = row(&[("id", s("i")), ("startedAt", n("5"))]);
    assert_eq!(
        decode_process(&no_scope).unwrap_err(),
        Error::Decoding("Missing 'processorId' field".to_string())
    );
    let bad_start = row(&[("id", s("i")), ("processorId", s("p")), ("startedAt", n("soon"))]);
    assert_eq!(
        decode_process(&bad_start).unwrap_err(),
        Error::Decoding("Missing or invalid 'startedAt' field".to_string())
    );
    let negative_start = row(&[("id", s("i")), ("processorId", s("p")), ("startedAt", n("-5"))]);
    assert!(matches!(decode_process(&negative_start), Err(Error::Decoding(_))));
    let huge_expiry =
        row(&[("id", s("i")), ("processorId", s("p")), ("startedAt", n("5")), ("expiresOn", n("9223372036854775807"))]);
    assert!(matches!(decode_process(&huge_expiry), Err(Error::Decoding(_))));
}

#[test]
fn decode_reads_malformed_optionals_as_absent() {
    let attrs = row(&[
        ("id", s("i")),
        ("processorId", s("p")),
        ("startedAt", n("5")),
        ("completedAt", s("yesterday")),
        ("expiresOn", Attribute::Other),
        ("memoized", n("3")),
    ]);
    let p = decode_process(&attrs).unwrap();
    assert_eq!(p.completed_at, None);
    assert_eq!(p.expires_on, None);
    assert_eq!(p.memoized, None);
}

#[test]
fn completion_update_with_and_without_ttl() {
    let now = Timestamp::from_millis(1_700_000_000_999);
    let with_ttl = Completion { id: "i", processor_id: "p", ttl: Some(Duration::from_secs(3600)) };
    let u = completion_update(&with_ttl, now).unwrap();
    assert_eq!(u, CompletionUpdate { completed_at_millis: 1_700_000_000_999, expires_on_secs: Some(1_700_003_600) });
    assert_eq!(u.expression(), COMPLETE_WITH_EXPIRY_EXPRESSION);
    let without = Completion { id: "i", processor_id: "p", ttl: None };
    let v = completion_update(&without, now).unwrap();
    assert_eq!(v, CompletionUpdate { completed_at_millis: 1_700_000_000_999, expires_on_secs: None });
    assert_eq!(v.expression(), COMPLETE_EXPRESSION);
    assert!(matches!(
        completion_update(&without, Timestamp::from_nanos(-1)),
        Err(Error::Internal(_))
    ));
}
