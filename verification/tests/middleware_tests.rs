use firetail::batch::FlushDecision;
use firetail::json::encode_record;
use firetail::middleware::{FiretailLogging, LoggingMiddleware};
use firetail::record::{build_record, build_request_info, HeaderEntry, ProtocolVersion,
    RequestInfo, ResponseInfo};

fn request(i: usize) -> RequestInfo {
    build_request_info(
        ProtocolVersion::Http11,
        vec![HeaderEntry { name: "host".to_string(), values: vec!["example.com".to_string()] }],
        "GET".to_string(),
        "".to_string(),
        "127.0.0.1".to_string(),
        "http",
        "example.com",
        &format!("/items/{}", i),
    )
}

fn response() -> ResponseInfo {
    ResponseInfo { status_code: 200, headers: vec![], body: "ok".to_string() }
}

#[test]
fn observing_ten_exchanges_triggers_one_flush_of_ten_records() {
    let mut middleware = LoggingMiddleware::new();
    for i in 0..9 {
        match middleware.observe(request(i), response(), 100, 150) {
            FlushDecision::Keep => {}
            FlushDecision::TriggerFlush(_) => panic!("flushed before ten exchanges"),
        }
    }
    match middleware.observe(request(9), response(), 100, 150) {
        FlushDecision::Keep => panic!("the tenth exchange must flush"),
        FlushDecision::TriggerFlush(batch) => {
            assert_eq!(batch.records.len(), 10);
            for r in &batch.records {
                assert!(r.starts_with("{\"version\":\"1.0.0-alpha\","));
            }
        }
    }
}

#[test]
fn observe_appends_exactly_the_encoded_record() {
    let mut middleware = LoggingMiddleware::new();
    let decision = middleware.observe(request(3), response(), 1000, 1200);
    assert!(matches!(decision, FlushDecision::Keep));
    // Nine more observations flush; the first flushed record is the wire
    // form of the record built from the same snapshots and timestamps.
    for i in 0..9 {
        if let FlushDecision::TriggerFlush(batch) = middleware.observe(request(i), response(), 1000, 1200) {
            let expected = encode_record(&build_record(request(3), response(), 1000, 1200));
            assert_eq!(batch.records[0], expected);
            assert!(expected.contains("\"resource\":\"/items/itemId\""));
            return;
        }
    }
    panic!("ten observations must have flushed");
}

#[test]
fn the_transform_starts_with_an_empty_buffer() {
    let factory = FiretailLogging::default();
    let mut middleware = factory.new_transform();
    // The very first exchange is kept, not flushed.
    assert!(matches!(
        middleware.observe(request(0), response(), 0, 0),
        FlushDecision::Keep
    ));
}
