use helpdesk_export::{ApiClient, ApiError, Collector, HttpFailure, JsonValue};

fn doc(text: &str) -> JsonValue {
    json::parse(text).unwrap()
}

fn refused(code: u16) -> Result<JsonValue, ApiError> {
    Err(ApiError::UReqError(HttpFailure::Status(code)))
}

#[test]
fn two_page_scenario_collects_three_tickets() {
    let client = ApiClient::new("u", "p", "acme");
    let responses = vec![
        Ok(doc(r#"{"tickets":[{"id":1},{"id":2}],"count":3,"next_page":"https://acme.example-helpdesk.com/api/v2/tickets?page=2"}"#)),
        Ok(doc(r#"{"tickets":[{"id":3}],"next_page":null}"#)),
    ];
    let tickets = client.get_all_pages("tickets", responses, 0);
    assert_eq!(tickets, vec![doc(r#"{"id":1}"#), doc(r#"{"id":2}"#), doc(r#"{"id":3}"#)]);
    assert_eq!(json::stringify(tickets), r#"[{"id":1},{"id":2},{"id":3}]"#);
}

#[test]
fn collection_keeps_order_between_and_within_pages() {
    let client = ApiClient::new("u", "p", "acme");
    let responses = vec![
        Ok(doc(r#"{"users":[5,1,4],"next_page":"b"}"#)),
        Ok(doc(r#"{"users":[2],"next_page":"c"}"#)),
        Ok(doc(r#"{"users":[9,3,3,0],"next_page":"d"}"#)),
        Ok(doc(r#"{"users":["x",{"id":7}]}"#)),
    ];
    let users = client.get_all_pages("users", responses, 0);
    assert_eq!(json::stringify(users), r#"[5,1,4,2,9,3,3,0,"x",{"id":7}]"#);
}

#[test]
fn failures_are_passed_over() {
    let client = ApiClient::new("u", "p", "acme");
    let responses = vec![
        refused(500),
        Ok(doc(r#"{"tickets":[1,2],"next_page":"b"}"#)),
        Ok(doc(r#"{"tickets":[]}"#)),
        Err(ApiError::OtherError("odd".to_string())),
        Ok(doc(r#"{"nothing":true}"#)),
        Ok(doc(r#"{"tickets":[3]}"#)),
    ];
    let tickets = client.get_all_pages("tickets", responses, 3);
    assert_eq!(json::stringify(tickets), "[1,2,3]");
}

#[test]
fn collection_ends_after_too_many_failures_in_a_row() {
    let client = ApiClient::new("u", "p", "acme");
    let responses = vec![
        Ok(doc(r#"{"tickets":[1,2],"next_page":"b"}"#)),
        refused(502),
        refused(502),
        refused(502),
        Ok(doc(r#"{"tickets":[3]}"#)),
    ];
    let tickets = client.get_all_pages("tickets", responses, 2);
    assert_eq!(json::stringify(tickets), "[1,2]");
}

#[test]
fn a_page_renews_the_tolerance() {
    let client = ApiClient::new("u", "p", "acme");
    let responses = vec![
        refused(502),
        refused(502),
        Ok(doc(r#"{"tickets":[1],"next_page":"b"}"#)),
        refused(502),
        refused(502),
        Ok(doc(r#"{"tickets":[2]}"#)),
    ];
    let tickets = client.get_all_pages("tickets", responses, 2);
    assert_eq!(json::stringify(tickets), "[1,2]");
}

#[test]
fn outcomes_after_the_last_page_are_ignored() {
    let client = ApiClient::new("u", "p", "acme");
    let responses = vec![
        Ok(doc(r#"{"tickets":[1]}"#)),
        Ok(doc(r#"{"tickets":[2]}"#)),
        refused(500),
    ];
    let tickets = client.get_all_pages("tickets", responses, 0);
    assert_eq!(json::stringify(tickets), "[1]");
}

#[test]
fn no_outcome_gives_no_record() {
    let client = ApiClient::new("u", "p", "acme");
    assert!(client.get_all_pages("tickets", vec![], 5).is_empty());
}

#[test]
fn collector_counts_failures_in_a_row() {
    let mut collector = Collector::new(1);
    assert!(!collector.is_stopped());
    assert!(collector.absorb(&refused(500), "tickets"));
    assert!(collector.absorb(&Ok(doc(r#"{"tickets":[1]}"#)), "tickets"));
    assert!(collector.absorb(&refused(500), "tickets"));
    assert!(!collector.absorb(&refused(500), "tickets"));
    assert!(collector.is_stopped());
    assert!(!collector.absorb(&Ok(doc(r#"{"tickets":[2]}"#)), "tickets"));
    assert_eq!(json::stringify(collector.into_records()), "[1]");
}

#[test]
fn collector_without_tolerance_stops_at_the_first_failure() {
    let mut collector = Collector::new(0);
    assert!(collector.absorb(&Ok(doc(r#"{"tickets":[1,2]}"#)), "tickets"));
    assert!(!collector.absorb(&refused(429), "tickets"));
    assert!(collector.is_stopped());
    assert_eq!(collector.records().len(), 2);
}

#[test]
fn collector_takes_nothing_from_what_is_no_array() {
    let mut collector = Collector::new(0);
    assert!(collector.absorb(&Ok(doc(r#"{"tickets":{"a":1,"b":2}}"#)), "tickets"));
    assert!(collector.absorb(&Ok(doc(r#"{"users":[1]}"#)), "tickets"));
    assert!(collector.records().is_empty());
}

#[test]
fn collection_survives_a_round_trip_through_text() {
    let client = ApiClient::new("u", "p", "acme");
    let responses = vec![
        Ok(doc(r#"{"tickets":[{"id":1,"subject":"a \"quoted\" word","tags":["x","y"]},{"id":2,"due":null}],"next_page":"b"}"#)),
        Ok(doc(r#"{"tickets":[{"id":3,"open":true,"score":-12.5,"nested":{"k":[1,{"z":0}]}}]}"#)),
    ];
    let mut tickets = client.get_all_pages("tickets", responses, 0);
    assert!(helpdesk_export::enrich::attach(&mut tickets[0], doc(r#"{"comments":[{"body":"hi"}]}"#)));
    let whole = JsonValue::Array(tickets);
    let again = json::parse(&json::stringify(whole.clone())).unwrap();
    assert_eq!(again, whole);
    let again = json::parse(&json::stringify_pretty(whole.clone(), 4)).unwrap();
    assert_eq!(again, whole);
    assert_eq!(again[0]["comments"]["comments"][0]["body"], "hi");
    assert_eq!(again.len(), 3);
}
