use firetail::json::{encode_record, push_dec_u64, push_json_string};
use firetail::record::{HeaderEntry, RequestInfo, ResponseInfo, TelemetryRecord};

#[test]
fn renders_numbers_in_plain_decimal() {
    for (n, expected) in [
        (0u64, "0"),
        (7, "7"),
        (10, "10"),
        (1048576, "1048576"),
        (18446744073709551615, "18446744073709551615"),
    ] {
        let mut out = String::new();
        push_dec_u64(&mut out, n);
        assert_eq!(out, expected);
    }
}

#[test]
fn escapes_strings_exactly_as_the_json_rules_say() {
    assert_string_encoding("plain text", "\"plain text\"");
    assert_string_encoding("say \"hi\"", "\"say \\\"hi\\\"\"");
    assert_string_encoding("back\\slash", "\"back\\\\slash\"");
    assert_string_encoding("line\nbreak\ttab\rret", "\"line\\nbreak\\ttab\\rret\"");
    assert_string_encoding("\u{8}\u{c}", "\"\\b\\f\"");
    assert_string_encoding("\u{1}\u{1f}", "\"\\u0001\\u001f\"");
    assert_string_encoding("", "\"\"");
}

fn assert_string_encoding(input: &str, expected: &str) {
    let mut out = String::new();
    push_json_string(&mut out, input);
    assert_eq!(out, expected);
    // The reference serializer escapes the same way.
    assert_eq!(out, serde_json::to_string(input).unwrap());
}

fn sample_record() -> TelemetryRecord {
    TelemetryRecord {
        version: "1.0.0-alpha".to_string(),
        date_created: 1700000000123,
        execution_time: 45,
        request: RequestInfo {
            http_protocol: "HTTP/1.1".to_string(),
            headers: vec![
                HeaderEntry {
                    name: "accept".to_string(),
                    values: vec!["text/html".to_string(), "application/json".to_string()],
                },
                HeaderEntry { name: "host".to_string(), values: vec!["example.com".to_string()] },
            ],
            method: "GET".to_string(),
            body: "".to_string(),
            ip: "10.0.0.1".to_string(),
            resource: "/products/productId".to_string(),
            uri: "http://example.com/products/123".to_string(),
        },
        response: ResponseInfo {
            status_code: 200,
            headers: vec![HeaderEntry {
                name: "content-type".to_string(),
                values: vec!["application/json".to_string()],
            }],
            body: "{\"ok\":true}".to_string(),
        },
    }
}

#[test]
fn encodes_a_whole_record() {
    let encoded = encode_record(&sample_record());
    let expected = "{\"version\":\"1.0.0-alpha\",\"dateCreated\":1700000000123,\"executionTime\":45,\"request\":{\"httpProtocol\":\"HTTP/1.1\",\"headers\":{\"accept\":[\"text/html\",\"application/json\"],\"host\":[\"example.com\"]},\"method\":\"GET\",\"body\":\"\",\"ip\":\"10.0.0.1\",\"resource\":\"/products/productId\",\"uri\":\"http://example.com/products/123\"},\"response\":{\"statusCode\":200,\"headers\":{\"content-type\":[\"application/json\"]},\"body\":\"{\\\"ok\\\":true}\"}}";
    assert_eq!(encoded, expected);
}

#[test]
fn encoded_record_is_valid_json() {
    let encoded = encode_record(&sample_record());
    let value: serde_json::Value = serde_json::from_str(&encoded).unwrap();
    assert_eq!(value["version"], serde_json::Value::String("1.0.0-alpha".to_string()));
    assert_eq!(value["request"]["headers"]["accept"][1],
        serde_json::Value::String("application/json".to_string()));
    assert_eq!(value["response"]["statusCode"],
        serde_json::Value::Number(serde_json::Number::from(200u64)));
}

#[test]
fn encodes_empty_header_maps_and_bodies() {
    let rec = TelemetryRecord {
        version: "1.0.0-alpha".to_string(),
        date_created: 0,
        execution_time: 0,
        request: RequestInfo {
            http_protocol: "Unknown HTTP Protocol".to_string(),
            headers: vec![],
            method: "POST".to_string(),
            body: "".to_string(),
            ip: "".to_string(),
            resource: "".to_string(),
            uri: "".to_string(),
        },
        response: ResponseInfo { status_code: 500, headers: vec![], body: "".to_string() },
    };
    let encoded = encode_record(&rec);
    let expected = "{\"version\":\"1.0.0-alpha\",\"dateCreated\":0,\"executionTime\":0,\"request\":{\"httpProtocol\":\"Unknown HTTP Protocol\",\"headers\":{},\"method\":\"POST\",\"body\":\"\",\"ip\":\"\",\"resource\":\"\",\"uri\":\"\"},\"response\":{\"statusCode\":500,\"headers\":{},\"body\":\"\"}}";
    assert_eq!(encoded, expected);
}
