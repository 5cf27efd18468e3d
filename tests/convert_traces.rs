#![allow(dead_code, unused_imports)]
use glint::attributes::AttributeValue;
use glint::convert::traces::{convert_resource_spans, convert_span, convert_span_kind, convert_status};
use glint::convert::{bytes_to_hex, convert_any_value, convert_attributes, convert_resource};
use glint::otlp::{AnyValue, KeyValue, Resource, ResourceSpans, ScopeSpans, Span, Status};
use glint::span::{SpanKind, StatusCode};

fn t_kv(key: &str, value: AnyValue) -> KeyValue {
    KeyValue { key: key.to_string(), value }
}

fn t_span(span_id: Vec<u8>, parent: Vec<u8>, name: &str, kind: i32, start: u64, end: u64, attributes: Vec<KeyValue>, status: Option<Status>) -> Span {
    Span {
        trace_id: vec![1, 2, 3, 4, 5, 6, 7, 8, 9, 10, 11, 12, 13, 14, 15, 16],
        span_id,
        parent_span_id: parent,
        name: name.to_string(),
        kind,
        start_time_unix_nano: start,
        end_time_unix_nano: end,
        attributes,
        status,
    }
}

fn t_service_resource(name: &str) -> Option<Resource> {
    Some(Resource { attributes: vec![t_kv("service.name", AnyValue::String(name.to_string()))] })
}

#[test]
fn traces_test_convert_span_kind() {
    assert_eq!(convert_span_kind(2), SpanKind::Server);
    assert_eq!(convert_span_kind(3), SpanKind::Client);
    assert_eq!(convert_span_kind(1), SpanKind::Internal);
}

#[test]
fn traces_test_convert_status() {
    let status = Status { code: 1, message: "".to_string() };
    let result = convert_status(&status);
    assert_eq!(result.code, StatusCode::Success);
    assert_eq!(result.message, None);

    let error_status = Status { code: 2, message: "error occurred".to_string() };
    let result = convert_status(&error_status);
    assert_eq!(result.code, StatusCode::Error);
    assert_eq!(result.message, Some("error occurred".to_string()));
}

#[test]
fn traces_test_convert_span_kind_all_variants() {
    assert_eq!(convert_span_kind(0), SpanKind::Unspecified);
    assert_eq!(convert_span_kind(1), SpanKind::Internal);
    assert_eq!(convert_span_kind(2), SpanKind::Server);
    assert_eq!(convert_span_kind(3), SpanKind::Client);
    assert_eq!(convert_span_kind(4), SpanKind::Producer);
    assert_eq!(convert_span_kind(5), SpanKind::Consumer);
}

#[test]
fn traces_test_convert_span_kind_invalid() {
    assert_eq!(convert_span_kind(999), SpanKind::Unspecified);
    assert_eq!(convert_span_kind(-1), SpanKind::Unspecified);
}

#[test]
fn traces_test_convert_status_all_codes() {
    let result = convert_status(&Status { code: 0, message: String::new() });
    assert_eq!(result.code, StatusCode::Unset);
    let result = convert_status(&Status { code: 1, message: String::new() });
    assert_eq!(result.code, StatusCode::Success);
    let result = convert_status(&Status { code: 2, message: "error".to_string() });
    assert_eq!(result.code, StatusCode::Error);
    assert_eq!(result.message, Some("error".to_string()));
}

#[test]
fn traces_test_convert_status_invalid_code() {
    let result = convert_status(&Status { code: 999, message: String::new() });
    assert_eq!(result.code, StatusCode::Unset);
}

#[test]
fn traces_test_convert_status_empty_message() {
    let result = convert_status(&Status { code: 2, message: String::new() });
    assert_eq!(result.message, None);
}

#[test]
fn traces_test_convert_span_with_parent() {
    let span = t_span(vec![1, 2, 3, 4, 5, 6, 7, 8], vec![9, 10, 11, 12, 13, 14, 15, 16], "child-span", 3, 1_000_000_000, 2_000_000_000, vec![], Some(Status { code: 1, message: String::new() }));
    let result = convert_span(&span, Some("test-service".to_string()));
    assert_eq!(result.parent_span_id, Some("090a0b0c0d0e0f10".to_string()));
    assert!(!result.is_root());
}

#[test]
fn traces_test_convert_span_without_parent() {
    let span = t_span(vec![1, 2, 3, 4, 5, 6, 7, 8], vec![], "root-span", 2, 1_000_000_000, 2_000_000_000, vec![], None);
    let result = convert_span(&span, Some("test-service".to_string()));
    assert_eq!(result.parent_span_id, None);
    assert!(result.is_root());
}

#[test]
fn traces_test_convert_span_with_attributes() {
    let attrs = vec![
        t_kv("http.method", AnyValue::String("POST".to_string())),
        t_kv("http.status_code", AnyValue::Int(200)),
    ];
    let span = t_span(vec![1, 2, 3, 4, 5, 6, 7, 8], vec![], "test-span", 2, 1_000_000_000, 2_000_000_000, attrs, Some(Status { code: 1, message: String::new() }));
    let result = convert_span(&span, Some("test-service".to_string()));
    assert_eq!(result.attributes.get_string("http.method"), Some("POST"));
    assert_eq!(result.attributes.get_int("http.status_code"), Some(200));
}

#[test]
fn traces_test_convert_resource_spans_multiple_scopes() {
    let resource_spans = vec![ResourceSpans {
        resource: t_service_resource("multi-scope"),
        scope_spans: vec![
            ScopeSpans { spans: vec![t_span(vec![1, 2, 3, 4, 5, 6, 7, 8], vec![], "scope1-span", 2, 1_000_000_000, 2_000_000_000, vec![], None)] },
            ScopeSpans { spans: vec![t_span(vec![9, 10, 11, 12, 13, 14, 15, 16], vec![], "scope2-span", 3, 1_500_000_000, 2_500_000_000, vec![], None)] },
        ],
    }];
    let spans = convert_resource_spans(&resource_spans);
    assert_eq!(spans.len(), 2);
    assert_eq!(spans[0].name, "scope1-span");
    assert_eq!(spans[1].name, "scope2-span");
    assert_eq!(spans[0].service_name, Some("multi-scope".to_string()));
    assert_eq!(spans[1].service_name, Some("multi-scope".to_string()));
}

#[test]
fn traces_test_convert_resource_spans_multiple_resources() {
    let resource_spans = vec![
        ResourceSpans {
            resource: t_service_resource("service1"),
            scope_spans: vec![ScopeSpans { spans: vec![t_span(vec![1, 2, 3, 4, 5, 6, 7, 8], vec![], "service1-span", 2, 1_000_000_000, 2_000_000_000, vec![], None)] }],
        },
        ResourceSpans {
            resource: t_service_resource("service2"),
            scope_spans: vec![ScopeSpans { spans: vec![t_span(vec![9, 10, 11, 12, 13, 14, 15, 16], vec![], "service2-span", 3, 1_500_000_000, 2_500_000_000, vec![], None)] }],
        },
    ];
    let spans = convert_resource_spans(&resource_spans);
    assert_eq!(spans.len(), 2);
    assert_eq!(spans[0].service_name, Some("service1".to_string()));
    assert_eq!(spans[1].service_name, Some("service2".to_string()));
}

#[test]
fn traces_test_convert_resource_spans_empty() {
    let resource_spans: Vec<ResourceSpans> = vec![];
    let spans = convert_resource_spans(&resource_spans);
    assert_eq!(spans.len(), 0);
}

#[test]
fn traces_test_convert_resource_spans_no_resource() {
    let resource_spans = vec![ResourceSpans {
        resource: None,
        scope_spans: vec![ScopeSpans { spans: vec![t_span(vec![1, 2, 3, 4, 5, 6, 7, 8], vec![], "no-resource-span", 2, 1_000_000_000, 2_000_000_000, vec![], None)] }],
    }];
    let spans = convert_resource_spans(&resource_spans);
    assert_eq!(spans.len(), 1);
    assert_eq!(spans[0].service_name, None);
}
