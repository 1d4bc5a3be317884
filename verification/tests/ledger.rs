use readsync::ledger::{FetchOutcome, ProgressLedger, ProgressRecord, UpsertRequest, UpsertOutcome};

fn scale(fraction: f64) -> u32 {
    (fraction * 10000.0).round() as u32
}

fn request(document: &str, percentage: u32, client_timestamp: u64) -> UpsertRequest {
    UpsertRequest {
        document: String::from(document),
        location: String::from("page-7"),
        percentage,
        device: String::from("reader"),
        device_id: String::from("dev-1"),
        client_timestamp,
    }
}

fn accepted(outcome: UpsertOutcome) -> ProgressRecord {
    match outcome {
        UpsertOutcome::Accepted(rec) => rec,
        UpsertOutcome::Rejected => panic!("write was rejected"),
    }
}

fn found(outcome: FetchOutcome) -> ProgressRecord {
    match outcome {
        FetchOutcome::Found(rec) => rec,
        FetchOutcome::NotFound => panic!("no record stored"),
    }
}

#[test]
fn first_write_creates_the_record() {
    let mut ledger = ProgressLedger::new();
    let alice = String::from("alice");
    let rec = accepted(ledger.upsert(&alice, &request("book42", scale(0.10), 5), 100));
    assert_eq!(rec.percentage, 1000);
    assert_eq!(rec.updated_at, 100);
    assert_eq!(rec.client_timestamp, 5);
    assert_eq!(rec.owner, "alice");
    assert_eq!(rec.document, "book42");
    let stored = found(ledger.fetch(&alice, &String::from("book42")));
    assert_eq!(stored.percentage, 1000);
}

#[test]
fn fetch_before_any_sync_is_not_found() {
    let ledger = ProgressLedger::new();
    assert!(matches!(
        ledger.fetch(&String::from("alice"), &String::from("book42")),
        FetchOutcome::NotFound
    ));
}

#[test]
fn out_of_range_percentage_is_rejected_without_a_write() {
    let mut ledger = ProgressLedger::new();
    let alice = String::from("alice");
    let over = scale(1.5);
    assert_eq!(over, 15000);
    assert!(matches!(
        ledger.upsert(&alice, &request("book42", over, 5), 100),
        UpsertOutcome::Rejected
    ));
    assert!(matches!(
        ledger.fetch(&alice, &String::from("book42")),
        FetchOutcome::NotFound
    ));
}

#[test]
fn empty_owner_or_document_is_rejected() {
    let mut ledger = ProgressLedger::new();
    assert!(matches!(
        ledger.upsert(&String::from(""), &request("book42", 100, 5), 100),
        UpsertOutcome::Rejected
    ));
    assert!(matches!(
        ledger.upsert(&String::from("alice"), &request("", 100, 5), 100),
        UpsertOutcome::Rejected
    ));
}

#[test]
fn rising_percentage_always_replaces() {
    let mut ledger = ProgressLedger::new();
    let alice = String::from("alice");
    let doc = String::from("book42");
    ledger.upsert(&alice, &request("book42", scale(0.10), 1), 100);
    ledger.upsert(&alice, &request("book42", scale(0.20), 2), 200);
    assert_eq!(found(ledger.fetch(&alice, &doc)).percentage, 2000);
    ledger.upsert(&alice, &request("book42", scale(0.30), 3), 300);
    let stored = found(ledger.fetch(&alice, &doc));
    assert_eq!(stored.percentage, 3000);
    assert_eq!(stored.client_timestamp, 3);
    assert_eq!(stored.updated_at, 300);
}

#[test]
fn stale_write_is_a_no_op_that_reports_the_stored_record() {
    let mut ledger = ProgressLedger::new();
    let alice = String::from("alice");
    let doc = String::from("book42");
    ledger.upsert(&alice, &request("book42", scale(0.10), 5), 100);
    let rec = accepted(ledger.upsert(&alice, &request("book42", scale(0.05), 9), 200));
    // The losing write succeeds but carries the authoritative stored record.
    assert_eq!(rec.percentage, 1000);
    assert_eq!(rec.updated_at, 100);
    let stored = found(ledger.fetch(&alice, &doc));
    assert_eq!(stored.percentage, 1000);
    assert_eq!(stored.client_timestamp, 5);
    assert_eq!(stored.updated_at, 100);
}

#[test]
fn identical_resend_changes_nothing() {
    let mut ledger = ProgressLedger::new();
    let alice = String::from("alice");
    let doc = String::from("book42");
    let first = accepted(ledger.upsert(&alice, &request("book42", scale(0.40), 7), 100));
    let again = accepted(ledger.upsert(&alice, &request("book42", scale(0.40), 7), 900));
    assert_eq!(again.percentage, first.percentage);
    assert_eq!(again.client_timestamp, first.client_timestamp);
    assert_eq!(again.updated_at, first.updated_at);
    assert_eq!(again.location, first.location);
    let stored = found(ledger.fetch(&alice, &doc));
    assert_eq!(stored.updated_at, 100);
}

#[test]
fn equal_percentage_later_client_time_wins() {
    let mut ledger = ProgressLedger::new();
    let alice = String::from("alice");
    let doc = String::from("book42");
    ledger.upsert(&alice, &request("book42", scale(0.50), 10), 100);
    let mut req = request("book42", scale(0.50), 11);
    req.location = String::from("page-9");
    ledger.upsert(&alice, &req, 200);
    let stored = found(ledger.fetch(&alice, &doc));
    assert_eq!(stored.location, "page-9");
    assert_eq!(stored.client_timestamp, 11);
    assert_eq!(stored.updated_at, 200);
}

#[test]
fn equal_percentage_earlier_client_time_loses() {
    let mut ledger = ProgressLedger::new();
    let alice = String::from("alice");
    let doc = String::from("book42");
    ledger.upsert(&alice, &request("book42", scale(0.50), 10), 100);
    let mut req = request("book42", scale(0.50), 9);
    req.location = String::from("page-2");
    ledger.upsert(&alice, &req, 200);
    let stored = found(ledger.fetch(&alice, &doc));
    assert_eq!(stored.location, "page-7");
    assert_eq!(stored.client_timestamp, 10);
    assert_eq!(stored.updated_at, 100);
}

#[test]
fn server_timestamp_never_decreases() {
    let mut ledger = ProgressLedger::new();
    let alice = String::from("alice");
    let doc = String::from("book42");
    ledger.upsert(&alice, &request("book42", scale(0.10), 1), 500);
    // The winning write arrives while the server clock reads earlier.
    ledger.upsert(&alice, &request("book42", scale(0.20), 2), 400);
    let stored = found(ledger.fetch(&alice, &doc));
    assert_eq!(stored.percentage, 2000);
    assert_eq!(stored.updated_at, 500);
}

#[test]
fn owners_are_isolated_even_for_the_same_document() {
    let mut ledger = ProgressLedger::new();
    let alice = String::from("alice");
    let bob = String::from("bob");
    let doc = String::from("book42");
    ledger.upsert(&alice, &request("book42", scale(0.10), 1), 100);
    ledger.upsert(&bob, &request("book42", scale(0.90), 2), 200);
    assert_eq!(found(ledger.fetch(&alice, &doc)).percentage, 1000);
    assert_eq!(found(ledger.fetch(&bob, &doc)).percentage, 9000);
    assert!(matches!(
        ledger.fetch(&String::from("carol"), &doc),
        FetchOutcome::NotFound
    ));
}

#[test]
fn documents_are_kept_apart() {
    let mut ledger = ProgressLedger::new();
    let alice = String::from("alice");
    ledger.upsert(&alice, &request("book42", scale(0.10), 1), 100);
    ledger.upsert(&alice, &request("book43", scale(0.80), 2), 200);
    assert_eq!(
        found(ledger.fetch(&alice, &String::from("book42"))).percentage,
        1000
    );
    assert_eq!(
        found(ledger.fetch(&alice, &String::from("book43"))).percentage,
        8000
    );
}

#[test]
fn full_completion_is_accepted() {
    let mut ledger = ProgressLedger::new();
    let alice = String::from("alice");
    let rec = accepted(ledger.upsert(&alice, &request("book42", scale(1.0), 1), 100));
    assert_eq!(rec.percentage, 10000);
}

#[test]
fn duplicated_record_equals_its_source() {
    let mut ledger = ProgressLedger::new();
    let alice = String::from("alice");
    let rec = accepted(ledger.upsert(&alice, &request("book42", scale(0.25), 4), 50));
    let copy = rec.duplicate();
    assert_eq!(copy.owner, rec.owner);
    assert_eq!(copy.document, rec.document);
    assert_eq!(copy.location, rec.location);
    assert_eq!(copy.percentage, rec.percentage);
    assert_eq!(copy.device, rec.device);
    assert_eq!(copy.device_id, rec.device_id);
    assert_eq!(copy.client_timestamp, rec.client_timestamp);
    assert_eq!(copy.updated_at, rec.updated_at);
}
