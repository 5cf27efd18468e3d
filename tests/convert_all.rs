#![allow(dead_code, unused_imports)]
use glint::attributes::AttributeValue;
use glint::convert::traces::{convert_resource_spans, convert_span, convert_span_kind, convert_status};
use glint::convert::{bytes_to_hex, convert_any_value, convert_attributes, convert_resource};
use glint::otlp::{AnyValue, KeyValue, Resource, ResourceSpans, ScopeSpans, Span, Status};
use glint::span::{SpanKind, StatusCode};

fn c_kv(key: &str, value: AnyValue) -> KeyValue {
    KeyValue { key: key.to_string(), value }
}

fn c_span(span_id: Vec<u8>, parent: Vec<u8>, name: &str, kind: i32, start: u64, end: u64, attributes: Vec<KeyValue>, status: Option<Status>) -> Span {
    Span {
        trace_id: vec![1, 2, 3, 4, 5, 6, 7, 8, 9, 10, 11, 12, 13, 14, 15, 16],
        span_id,
        parent_span_id: parent,
        name: name.to_string(),
        kind,
        start_time_unix_nano: start,
        end_time_unix_nano: end,
        attributes,
        status,
    }
}

fn c_service_resource(name: &str) -> Option<Resource> {
    Some(Resource { attributes: vec![c_kv("service.name", AnyValue::String(name.to_string()))] })
}

#[test]
fn convert_test_convert_span_kind() {
    assert_eq!(convert_span_kind(2), SpanKind::Server);
    assert_eq!(convert_span_kind(3), SpanKind::Client);
    assert_eq!(convert_span_kind(1), SpanKind::Internal);
}

#[test]
fn convert_test_bytes_to_hex() {
    assert_eq!(bytes_to_hex(&[0x12, 0x34, 0xab, 0xcd]), "1234abcd");
    assert_eq!(bytes_to_hex(&[]), "");
}

#[test]
fn convert_test_convert_any_value_string() {
    let result = convert_any_value(&AnyValue::String("test".to_string())).unwrap();
    assert_eq!(result, AttributeValue::String("test".to_string()));
}

#[test]
fn convert_test_convert_any_value_int() {
    let result = convert_any_value(&AnyValue::Int(42)).unwrap();
    assert_eq!(result, AttributeValue::Int(42));
}

#[test]
fn convert_test_convert_any_value_bool() {
    let result = convert_any_value(&AnyValue::Bool(true)).unwrap();
    assert_eq!(result, AttributeValue::Bool(true));
}

#[test]
fn convert_test_convert_attributes() {
    let kvs = vec![
        c_kv("name", AnyValue::String("test".to_string())),
        c_kv("count", AnyValue::Int(10)),
    ];
    let attrs = convert_attributes(&kvs);
    assert_eq!(attrs.get_string("name"), Some("test"));
    assert_eq!(attrs.get_int("count"), Some(10));
}

#[test]
fn convert_test_convert_status() {
    let status = Status { code: 1, message: "".to_string() };
    let result = convert_status(&status);
    assert_eq!(result.code, StatusCode::Success);
    assert_eq!(result.message, None);

    let error_status = Status { code: 2, message: "error occurred".to_string() };
    let result = convert_status(&error_status);
    assert_eq!(result.code, StatusCode::Error);
    assert_eq!(result.message, Some("error occurred".to_string()));
}

#[test]
fn convert_test_convert_resource() {
    let resource = Resource { attributes: vec![c_kv("service.name", AnyValue::String("my-service".to_string()))] };
    let result = convert_resource(&resource);
    assert_eq!(result.service_name(), Some("my-service"));
}

#[test]
fn convert_test_convert_any_value_double() {
    let pi = std::f64::consts::PI;
    let result = convert_any_value(&AnyValue::Double(pi.to_bits(), pi.to_string())).unwrap();
    assert_eq!(result, AttributeValue::Double(pi.to_bits()));
}

#[test]
fn convert_test_convert_any_value_bytes() {
    let bytes = vec![0x01, 0x02, 0x03];
    let result = convert_any_value(&AnyValue::Bytes(bytes.clone())).unwrap();
    assert_eq!(result, AttributeValue::Bytes(bytes));
}

#[test]
fn convert_test_convert_any_value_array() {
    let value = AnyValue::Array(vec![AnyValue::String("item1".to_string()), AnyValue::Int(42)]);
    let result = convert_any_value(&value).unwrap();
    if let AttributeValue::Array(arr) = result {
        assert_eq!(arr.len(), 2);
        assert_eq!(arr[0], AttributeValue::String("item1".to_string()));
        assert_eq!(arr[1], AttributeValue::Int(42));
    } else {
        panic!("Expected array value");
    }
}

#[test]
fn convert_test_convert_any_value_empty_array() {
    let result = convert_any_value(&AnyValue::Array(vec![])).unwrap();
    if let AttributeValue::Array(arr) = result {
        assert_eq!(arr.len(), 0);
    } else {
        panic!("Expected array value");
    }
}

#[test]
fn convert_test_convert_any_value_none() {
    let result = convert_any_value(&AnyValue::Empty);
    assert!(result.is_none());
}

#[test]
fn convert_test_convert_attributes_empty() {
    let kvs: Vec<KeyValue> = vec![];
    let attrs = convert_attributes(&kvs);
    assert!(attrs.is_empty());
}

#[test]
fn convert_test_convert_attributes_mixed_types() {
    let e = std::f64::consts::E;
    let kvs = vec![
        c_kv("string_key", AnyValue::String("value".to_string())),
        c_kv("int_key", AnyValue::Int(123)),
        c_kv("bool_key", AnyValue::Bool(false)),
        c_kv("double_key", AnyValue::Double(e.to_bits(), e.to_string())),
    ];
    let attrs = convert_attributes(&kvs);
    assert_eq!(attrs.get_string("string_key"), Some("value"));
    assert_eq!(attrs.get_int("int_key"), Some(123));
    assert_eq!(attrs.get_bool("bool_key"), Some(false));
    assert_eq!(attrs.get_double("double_key").map(f64::from_bits), Some(e));
}

#[test]
fn convert_test_convert_attributes_with_none_values() {
    let kvs = vec![
        c_kv("valid", AnyValue::String("test".to_string())),
        c_kv("none_value", AnyValue::Empty),
        c_kv("empty_value", AnyValue::Empty),
    ];
    let attrs = convert_attributes(&kvs);
    assert_eq!(attrs.len(), 1);
    assert_eq!(attrs.get_string("valid"), Some("test"));
}

#[test]
fn convert_test_convert_span_kind_all_variants() {
    assert_eq!(convert_span_kind(0), SpanKind::Unspecified);
    assert_eq!(convert_span_kind(1), SpanKind::Internal);
    assert_eq!(convert_span_kind(2), SpanKind::Server);
    assert_eq!(convert_span_kind(3), SpanKind::Client);
    assert_eq!(convert_span_kind(4), SpanKind::Producer);
    assert_eq!(convert_span_kind(5), SpanKind::Consumer);
}

#[test]
fn convert_test_convert_span_kind_invalid() {
    assert_eq!(convert_span_kind(999), SpanKind::Unspecified);
    assert_eq!(convert_span_kind(-1), SpanKind::Unspecified);
}

#[test]
fn convert_test_convert_status_all_codes() {
    let result = convert_status(&Status { code: 0, message: String::new() });
    assert_eq!(result.code, StatusCode::Unset);
    let result = convert_status(&Status { code: 1, message: String::new() });
    assert_eq!(result.code, StatusCode::Success);
    let result = convert_status(&Status { code: 2, message: "error".to_string() });
    assert_eq!(result.code, StatusCode::Error);
    assert_eq!(result.message, Some("error".to_string()));
}

#[test]
fn convert_test_convert_status_invalid_code() {
    let result = convert_status(&Status { code: 999, message: String::new() });
    assert_eq!(result.code, StatusCode::Unset);
}

#[test]
fn convert_test_convert_status_empty_message() {
    let result = convert_status(&Status { code: 2, message: String::new() });
    assert_eq!(result.message, None);
}

#[test]
fn test_bytes_to_hex_empty() {
    assert_eq!(bytes_to_hex(&[]), "");
}

#[test]
fn test_bytes_to_hex_single_byte() {
    assert_eq!(bytes_to_hex(&[0xFF]), "ff");
}

#[test]
fn test_bytes_to_hex_standard_trace_id() {
    let trace_id = vec![
        0x00, 0x01, 0x02, 0x03, 0x04, 0x05, 0x06, 0x07, 0x08, 0x09, 0x0a, 0x0b, 0x0c, 0x0d, 0x0e, 0x0f,
    ];
    assert_eq!(bytes_to_hex(&trace_id), "000102030405060708090a0b0c0d0e0f");
}

#[test]
fn convert_test_convert_span_with_parent() {
    let span = c_span(vec![1, 2, 3, 4, 5, 6, 7, 8], vec![9, 10, 11, 12, 13, 14, 15, 16], "child-span", 3, 1_000_000_000, 2_000_000_000, vec![], Some(Status { code: 1, message: String::new() }));
    let result = convert_span(&span, Some("test-service".to_string()));
    assert_eq!(result.parent_span_id, Some("090a0b0c0d0e0f10".to_string()));
    assert!(!result.is_root());
}

#[test]
fn convert_test_convert_span_without_parent() {
    let span = c_span(vec![1, 2, 3, 4, 5, 6, 7, 8], vec![], "root-span", 2, 1_000_000_000, 2_000_000_000, vec![], None);
    let result = convert_span(&span, Some("test-service".to_string()));
    assert_eq!(result.parent_span_id, None);
    assert!(result.is_root());
}

#[test]
fn convert_test_convert_span_with_attributes() {
    let attrs = vec![
        c_kv("http.method", AnyValue::String("POST".to_string())),
        c_kv("http.status_code", AnyValue::Int(200)),
    ];
    let span = c_span(vec![1, 2, 3, 4, 5, 6, 7, 8], vec![], "test-span", 2, 1_000_000_000, 2_000_000_000, attrs, Some(Status { code: 1, message: String::new() }));
    let result = convert_span(&span, Some("test-service".to_string()));
    assert_eq!(result.attributes.get_string("http.method"), Some("POST"));
    assert_eq!(result.attributes.get_int("http.status_code"), Some(200));
}

#[test]
fn convert_test_convert_resource_spans_multiple_scopes() {
    let resource_spans = vec![ResourceSpans {
        resource: c_service_resource("multi-scope"),
        scope_spans: vec![
            ScopeSpans { spans: vec![c_span(vec![1, 2, 3, 4, 5, 6, 7, 8], vec![], "scope1-span", 2, 1_000_000_000, 2_000_000_000, vec![], None)] },
            ScopeSpans { spans: vec![c_span(vec![9, 10, 11, 12, 13, 14, 15, 16], vec![], "scope2-span", 3, 1_500_000_000, 2_500_000_000, vec![], None)] },
        ],
    }];
    let spans = convert_resource_spans(&resource_spans);
    assert_eq!(spans.len(), 2);
    assert_eq!(spans[0].name, "scope1-span");
    assert_eq!(spans[1].name, "scope2-span");
    assert_eq!(spans[0].service_name, Some("multi-scope".to_string()));
    assert_eq!(spans[1].service_name, Some("multi-scope".to_string()));
}

#[test]
fn convert_test_convert_resource_spans_multiple_resources() {
    let resource_spans = vec![
        ResourceSpans {
            resource: c_service_resource("service1"),
            scope_spans: vec![ScopeSpans { spans: vec![c_span(vec![1, 2, 3, 4, 5, 6, 7, 8], vec![], "service1-span", 2, 1_000_000_000, 2_000_000_000, vec![], None)] }],
        },
        ResourceSpans {
            resource: c_service_resource("service2"),
            scope_spans: vec![ScopeSpans { spans: vec![c_span(vec![9, 10, 11, 12, 13, 14, 15, 16], vec![], "service2-span", 3, 1_500_000_000, 2_500_000_000, vec![], None)] }],
        },
    ];
    let spans = convert_resource_spans(&resource_spans);
    assert_eq!(spans.len(), 2);
    assert_eq!(spans[0].service_name, Some("service1".to_string()));
    assert_eq!(spans[1].service_name, Some("service2".to_string()));
}

#[test]
fn convert_test_convert_resource_spans_empty() {
    let resource_spans: Vec<ResourceSpans> = vec![];
    let spans = convert_resource_spans(&resource_spans);
    assert_eq!(spans.len(), 0);
}

#[test]
fn convert_test_convert_resource_spans_no_resource() {
    let resource_spans = vec![ResourceSpans {
        resource: None,
        scope_spans: vec![ScopeSpans { spans: vec![c_span(vec![1, 2, 3, 4, 5, 6, 7, 8], vec![], "no-resource-span", 2, 1_000_000_000, 2_000_000_000, vec![], None)] }],
    }];
    let spans = convert_resource_spans(&resource_spans);
    assert_eq!(spans.len(), 1);
    assert_eq!(spans[0].service_name, None);
}
