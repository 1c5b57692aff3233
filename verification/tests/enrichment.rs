use helpdesk_export::enrich::{attach, attach_all, decimal_string, record_id};
use helpdesk_export::{ApiClient, ApiError, EnrichStep, Enricher, HttpFailure, JsonValue};

fn doc(text: &str) -> JsonValue {
    json::parse(text).unwrap()
}

#[test]
fn decimal_string_writes_numbers() {
    assert_eq!(decimal_string(0), "0");
    assert_eq!(decimal_string(7), "7");
    assert_eq!(decimal_string(10), "10");
    assert_eq!(decimal_string(12345), "12345");
    assert_eq!(decimal_string(9876543210), "9876543210");
    assert_eq!(decimal_string(1000000), "1000000");
    assert_eq!(decimal_string(u64::MAX), "18446744073709551615");
}

#[test]
fn record_id_reads_unsigned_integers() {
    assert_eq!(record_id(&doc(r#"{"id":42,"subject":"x"}"#)), Some(42));
    assert_eq!(record_id(&doc(r#"{"id":0}"#)), Some(0));
    assert_eq!(record_id(&doc(r#"{"id":18446744073709551615}"#)), Some(u64::MAX));
    assert_eq!(record_id(&doc(r#"{"id":"42"}"#)), None);
    assert_eq!(record_id(&doc(r#"{"id":-3}"#)), None);
    assert_eq!(record_id(&doc(r#"{"id":1.5}"#)), None);
    assert_eq!(record_id(&doc(r#"{"id":null}"#)), None);
    assert_eq!(record_id(&doc(r#"{"subject":"x"}"#)), None);
    assert_eq!(record_id(&doc(r#"[42]"#)), None);
}

#[test]
fn plan_addresses_the_comments_of_the_record() {
    let client = ApiClient::new("user", "pass", "acme");
    let enricher = Enricher::new(4, 10);
    let request = enricher.plan(&client, &doc(r#"{"id":3107,"subject":"x"}"#)).unwrap();
    assert_eq!(request.url, "https://acme.example-helpdesk.com/api/v2/tickets/3107/comments");
    assert_eq!(request.authorization, "Basic dXNlcjpwYXNz");
}

#[test]
fn record_without_usable_id_is_skipped() {
    let client = ApiClient::new("user", "pass", "acme");
    let enricher = Enricher::new(4, 10);
    assert!(enricher.plan(&client, &doc(r#"{"subject":"x"}"#)).is_none());
    assert!(enricher.plan(&client, &doc(r#"{"id":"7"}"#)).is_none());
    assert!(enricher.plan(&client, &doc(r#"7"#)).is_none());
}

#[test]
fn attach_sets_the_payload_under_comments() {
    let mut record = doc(r#"{"id":1,"subject":"x"}"#);
    assert!(attach(&mut record, doc(r#"{"comments":[{"body":"a"},{"body":"b"}]}"#)));
    assert_eq!(
        record,
        doc(r#"{"id":1,"subject":"x","comments":{"comments":[{"body":"a"},{"body":"b"}]}}"#)
    );
}

#[test]
fn attach_replaces_an_earlier_payload() {
    let mut record = doc(r#"{"comments":"old","id":1}"#);
    assert!(attach(&mut record, doc(r#"[1,2]"#)));
    assert_eq!(record, doc(r#"{"comments":[1,2],"id":1}"#));
    assert_eq!(record.len(), 2);
}

#[test]
fn attach_leaves_what_is_no_object() {
    let mut record = doc(r#"[1,2]"#);
    assert!(!attach(&mut record, doc(r#"{"comments":[]}"#)));
    assert_eq!(record, doc(r#"[1,2]"#));
    let mut record = doc(r#""text""#);
    assert!(!attach(&mut record, doc(r#"{"comments":[]}"#)));
    assert_eq!(record, doc(r#""text""#));
}

#[test]
fn settle_attaches_on_success() {
    let enricher = Enricher::new(4, 10);
    match enricher.settle(1, Ok(doc(r#"{"comments":[1]}"#))) {
        EnrichStep::Attach(payload) => assert_eq!(payload, doc(r#"{"comments":[1]}"#)),
        other => panic!("expected to attach, got {:?}", other),
    }
}

#[test]
fn settle_backs_off_on_429() {
    let enricher = Enricher::new(4, 10);
    for attempt in [1, 2, 1000, u32::MAX] {
        match enricher.settle(attempt, Err(ApiError::UReqError(HttpFailure::Status(429)))) {
            EnrichStep::RetryAfter(secs) => assert_eq!(secs, 10),
            other => panic!("expected a backoff, got {:?}", other),
        }
    }
}

#[test]
fn settle_retries_on_any_other_error() {
    let enricher = Enricher::new(4, 10);
    let errors = vec![
        ApiError::UReqError(HttpFailure::Status(500)),
        ApiError::UReqError(HttpFailure::Transport("reset".to_string())),
        ApiError::JsonError(json::Error::UnexpectedEndOfJson),
        ApiError::StdError(std::io::Error::other("cut")),
        ApiError::OtherError("odd".to_string()),
    ];
    for e in errors {
        assert!(matches!(enricher.settle(5, Err(e)), EnrichStep::Retry));
    }
}

#[test]
fn settle_gives_up_when_attempts_are_used_up() {
    let enricher = Enricher::new(4, 10).with_max_attempts(3);
    assert!(matches!(
        enricher.settle(2, Err(ApiError::UReqError(HttpFailure::Status(429)))),
        EnrichStep::RetryAfter(10)
    ));
    assert!(matches!(
        enricher.settle(2, Err(ApiError::UReqError(HttpFailure::Status(500)))),
        EnrichStep::Retry
    ));
    match enricher.settle(3, Err(ApiError::UReqError(HttpFailure::Status(429)))) {
        EnrichStep::GiveUp(ApiError::UReqError(HttpFailure::Status(code))) => assert_eq!(code, 429),
        other => panic!("expected to give up, got {:?}", other),
    }
    assert!(matches!(enricher.settle(4, Err(ApiError::OtherError("x".to_string()))), EnrichStep::GiveUp(_)));
    assert!(matches!(enricher.settle(9, Ok(doc("1"))), EnrichStep::Attach(_)));
}

#[test]
fn settings_are_kept() {
    let enricher = Enricher::new(4, 10);
    assert_eq!(enricher.workers(), 4);
    assert_eq!(enricher.backoff_secs(), 10);
}

#[test]
fn rate_limited_twice_then_enriched() {
    let client = ApiClient::new("user", "pass", "acme");
    let enricher = Enricher::new(4, 10);
    let mut record = doc(r#"{"id":7,"subject":"printer"}"#);
    let request = enricher.plan(&client, &record).unwrap();
    assert_eq!(request.url, "https://acme.example-helpdesk.com/api/v2/tickets/7/comments");

    let mut fetches: u32 = 0;
    let mut waits: Vec<u64> = vec![];
    loop {
        fetches += 1;
        let outcome = if fetches <= 2 {
            Err(ApiError::UReqError(HttpFailure::Status(429)))
        } else {
            Ok(doc(r#"{"comments":[{"id":70,"body":"on it"}]}"#))
        };
        match enricher.settle(fetches, outcome) {
            EnrichStep::Attach(payload) => {
                assert!(attach(&mut record, payload));
                break;
            }
            EnrichStep::RetryAfter(secs) => waits.push(secs),
            EnrichStep::Retry => {}
            EnrichStep::GiveUp(e) => panic!("gave up with {:?}", e),
        }
        assert!(fetches < 10);
    }
    assert_eq!(fetches, 3);
    assert_eq!(waits.len(), 2);
    assert!(waits.iter().all(|secs| *secs >= enricher.backoff_secs()));
    assert_eq!(
        record,
        doc(r#"{"id":7,"subject":"printer","comments":{"comments":[{"id":70,"body":"on it"}]}}"#)
    );
}

#[test]
fn attach_all_gives_each_record_its_own_payload() {
    let mut records = vec![
        doc(r#"{"id":1}"#),
        doc(r#"{"id":2}"#),
        doc(r#"[3]"#),
        doc(r#"{"id":4,"comments":"old"}"#),
    ];
    let payloads = vec![
        Some(doc(r#"{"comments":["a"]}"#)),
        None,
        Some(doc(r#"{"comments":["c"]}"#)),
        Some(doc(r#"{"comments":["d"]}"#)),
    ];
    attach_all(&mut records, payloads);
    assert_eq!(
        json::stringify(records),
        r#"[{"id":1,"comments":{"comments":["a"]}},{"id":2},[3],{"id":4,"comments":{"comments":["d"]}}]"#
    );
}

#[test]
fn attach_all_takes_fewer_and_more_payloads_than_records() {
    let mut records = vec![doc(r#"{"id":1}"#), doc(r#"{"id":2}"#)];
    attach_all(&mut records, vec![Some(doc("1"))]);
    assert_eq!(json::stringify(records.clone()), r#"[{"id":1,"comments":1},{"id":2}]"#);
    attach_all(&mut records, vec![None, Some(doc("2")), Some(doc("3")), None]);
    assert_eq!(json::stringify(records.clone()), r#"[{"id":1,"comments":1},{"id":2,"comments":2}]"#);
    attach_all(&mut records, vec![]);
    assert_eq!(json::stringify(records), r#"[{"id":1,"comments":1},{"id":2,"comments":2}]"#);
}

#[test]
fn a_pool_has_at_least_one_worker() {
    assert_eq!(Enricher::new(0, 10).workers(), 1);
    assert_eq!(Enricher::new(1, 10).workers(), 1);
    assert_eq!(Enricher::new(0, 10).with_max_attempts(2).workers(), 1);
    assert_eq!(Enricher::new(20, 10).with_max_attempts(2).workers(), 20);
}
