use firetail::batch::DeliveryBatch;
use firetail::delivery::{
    api_key_header_name, classify_status, delivery_content_type, join_batch_payload,
    AttemptOutcome, DeliveryDriver, DeliveryOutcome, DeliveryStep,
};

#[test]
fn classifies_success_statuses() {
    assert_eq!(classify_status(200), AttemptOutcome::Delivered);
    assert_eq!(classify_status(204), AttemptOutcome::Delivered);
    assert_eq!(classify_status(299), AttemptOutcome::Delivered);
}

#[test]
fn classifies_transient_statuses() {
    assert_eq!(classify_status(429), AttemptOutcome::TransientFailure);
    assert_eq!(classify_status(500), AttemptOutcome::TransientFailure);
    assert_eq!(classify_status(503), AttemptOutcome::TransientFailure);
    assert_eq!(classify_status(599), AttemptOutcome::TransientFailure);
}

#[test]
fn classifies_fatal_statuses() {
    assert_eq!(classify_status(100), AttemptOutcome::FatalFailure);
    assert_eq!(classify_status(301), AttemptOutcome::FatalFailure);
    assert_eq!(classify_status(400), AttemptOutcome::FatalFailure);
    assert_eq!(classify_status(404), AttemptOutcome::FatalFailure);
    assert_eq!(classify_status(601), AttemptOutcome::FatalFailure);
}

#[test]
fn three_transient_failures_then_success_is_delivery_succeeded() {
    let mut driver = DeliveryDriver::new();
    assert_eq!(
        driver.next_step(AttemptOutcome::TransientFailure),
        DeliveryStep::RetryAfter(1000)
    );
    assert_eq!(
        driver.next_step(AttemptOutcome::TransientFailure),
        DeliveryStep::RetryAfter(2000)
    );
    assert_eq!(
        driver.next_step(AttemptOutcome::TransientFailure),
        DeliveryStep::RetryAfter(4000)
    );
    assert_eq!(
        driver.next_step(AttemptOutcome::Delivered),
        DeliveryStep::Finished(DeliveryOutcome::DeliverySucceeded)
    );
}

#[test]
fn four_transient_failures_is_delivery_failed_for_good() {
    let mut driver = DeliveryDriver::new();
    for _ in 0..3 {
        assert!(matches!(
            driver.next_step(AttemptOutcome::TransientFailure),
            DeliveryStep::RetryAfter(_)
        ));
    }
    assert_eq!(
        driver.next_step(AttemptOutcome::TransientFailure),
        DeliveryStep::Finished(DeliveryOutcome::DeliveryFailed)
    );
    // The batch is never retried further, whatever comes later.
    assert_eq!(
        driver.next_step(AttemptOutcome::TransientFailure),
        DeliveryStep::Finished(DeliveryOutcome::DeliveryFailed)
    );
}

#[test]
fn a_fatal_failure_ends_the_delivery_at_once() {
    let mut driver = DeliveryDriver::new();
    assert_eq!(
        driver.next_step(AttemptOutcome::FatalFailure),
        DeliveryStep::Finished(DeliveryOutcome::DeliveryFailed)
    );
}

#[test]
fn success_on_the_first_attempt_needs_no_retry() {
    let mut driver = DeliveryDriver::new();
    assert_eq!(
        driver.next_step(AttemptOutcome::Delivered),
        DeliveryStep::Finished(DeliveryOutcome::DeliverySucceeded)
    );
}

fn batch_of(records: &[&str]) -> DeliveryBatch {
    DeliveryBatch { records: records.iter().map(|r| r.to_string()).collect() }
}

#[test]
fn joins_batch_records_with_newlines() {
    let batch = batch_of(&["{\"a\":1}", "{\"b\":2}", "{\"c\":3}"]);
    assert_eq!(join_batch_payload(&batch), "{\"a\":1}\n{\"b\":2}\n{\"c\":3}");
}

#[test]
fn joins_a_single_record_without_separator() {
    let batch = batch_of(&["only"]);
    assert_eq!(join_batch_payload(&batch), "only");
}

#[test]
fn joins_an_empty_batch_to_an_empty_payload() {
    let batch = batch_of(&[]);
    assert_eq!(join_batch_payload(&batch), "");
}

#[test]
fn names_the_wire_constants() {
    assert_eq!(delivery_content_type(), "application/nd-json");
    assert_eq!(api_key_header_name(), "x-ft-api-key");
}
