use firetail::record::{
    build_record, build_request_info, protocol_label_str, HeaderEntry, ProtocolVersion,
    RequestInfo, ResponseInfo,
};

#[test]
fn labels_every_protocol() {
    assert_eq!(protocol_label_str(&ProtocolVersion::Http09), "HTTP/0.9");
    assert_eq!(protocol_label_str(&ProtocolVersion::Http10), "HTTP/1.0");
    assert_eq!(protocol_label_str(&ProtocolVersion::Http11), "HTTP/1.1");
    assert_eq!(protocol_label_str(&ProtocolVersion::Http2), "HTTP/2.0");
    assert_eq!(protocol_label_str(&ProtocolVersion::Http3), "HTTP/3.0");
    assert_eq!(protocol_label_str(&ProtocolVersion::Unknown), "Unknown HTTP Protocol");
}

fn sample_request() -> RequestInfo {
    build_request_info(
        ProtocolVersion::Http11,
        vec![HeaderEntry {
            name: "accept".to_string(),
            values: vec!["*/*".to_string(), "text/html".to_string()],
        }],
        "GET".to_string(),
        "payload".to_string(),
        "192.168.0.7".to_string(),
        "https",
        "api.example.com",
        "/products/123",
    )
}

#[test]
fn builds_the_request_snapshot() {
    let req = sample_request();
    assert_eq!(req.http_protocol, "HTTP/1.1");
    assert_eq!(req.method, "GET");
    assert_eq!(req.body, "payload");
    assert_eq!(req.ip, "192.168.0.7");
    assert_eq!(req.resource, "/products/productId");
    assert_eq!(req.uri, "https://api.example.com/products/123");
    assert_eq!(req.headers.len(), 1);
    assert_eq!(req.headers[0].name, "accept");
    assert_eq!(req.headers[0].values, vec!["*/*".to_string(), "text/html".to_string()]);
}

fn sample_response() -> ResponseInfo {
    ResponseInfo {
        status_code: 201,
        headers: vec![HeaderEntry {
            name: "content-length".to_string(),
            values: vec!["2".to_string()],
        }],
        body: "ok".to_string(),
    }
}

#[test]
fn builds_the_record_with_elapsed_time() {
    let rec = build_record(sample_request(), sample_response(), 1000, 1250);
    assert_eq!(rec.version, "1.0.0-alpha");
    assert_eq!(rec.date_created, 1000);
    assert_eq!(rec.execution_time, 250);
    assert_eq!(rec.request.resource, "/products/productId");
    assert_eq!(rec.response.status_code, 201);
    assert_eq!(rec.response.body, "ok");
}

#[test]
fn clamps_a_backwards_clock_to_zero() {
    let rec = build_record(sample_request(), sample_response(), 5000, 4000);
    assert_eq!(rec.date_created, 5000);
    assert_eq!(rec.execution_time, 0);
}

#[test]
fn groups_repeated_names_even_when_not_adjacent() {
    let grouped = firetail::record::group_header_pairs(vec![
        ("accept".to_string(), "text/html".to_string()),
        ("host".to_string(), "example.com".to_string()),
        ("accept".to_string(), "application/json".to_string()),
        ("cookie".to_string(), "a=1".to_string()),
        ("accept".to_string(), "*/*".to_string()),
    ]);
    assert_eq!(grouped.len(), 3);
    assert_eq!(grouped[0].name, "accept");
    assert_eq!(
        grouped[0].values,
        vec!["text/html".to_string(), "application/json".to_string(), "*/*".to_string()]
    );
    assert_eq!(grouped[1].name, "host");
    assert_eq!(grouped[1].values, vec!["example.com".to_string()]);
    assert_eq!(grouped[2].name, "cookie");
    assert_eq!(grouped[2].values, vec!["a=1".to_string()]);
}

#[test]
fn grouping_no_pairs_gives_no_entries() {
    assert_eq!(firetail::record::group_header_pairs(vec![]).len(), 0);
}

#[test]
fn keeps_repeated_header_values() {
    let req = sample_request();
    // Both values of the repeated header survive; nothing is collapsed.
    assert_eq!(req.headers[0].values.len(), 2);
}

#[test]
fn decodes_valid_utf8_bodies_and_rejects_invalid_ones() {
    assert_eq!(
        firetail::record::body_text_of_bytes("hello".as_bytes()),
        Some("hello".to_string())
    );
    assert_eq!(firetail::record::body_text_of_bytes(&[]), Some("".to_string()));
    assert_eq!(firetail::record::body_text_of_bytes(&[0xff, 0xfe]), None);
}
