use glint::assets::{asset_media_type, prefix_dist, resolve_asset, resolve_response};
use glint::attributes::Attributes;
use glint::cli::{choose_db_path, listed_in_traces, Commands};
use glint::convert::convert_any_value_to_string;
use glint::convert::logs::{convert_log_severity_level, convert_resource_logs};
use glint::convert::metrics::{convert_resource_metrics, convert_temporality};
use glint::convert::traces::convert_resource_spans;
use glint::db_path::{
    choose_project_root, get_default_db_path, get_project_db_path, project_markers,
    project_path_to_db_name, unix_config_dir, unix_data_dir, windows_data_dir,
};
use glint::ingest::{http_export_reply, log_export_outcome, metric_export_outcome, span_export_outcome};
use glint::log::SeverityLevel;
use glint::metric::{AggregationTemporality, Metric, MetricType, MetricValue};
use glint::otlp::{
    AnyValue, Gauge, Histogram, HistogramDataPoint, KeyValue, LogRecord, MetricData, NumberDataPoint, NumberValue,
    Resource, ResourceLogs, ResourceMetrics, ResourceSpans, ScopeLogs, ScopeMetrics, ScopeSpans, Span as WireSpan,
    Status as WireStatus, Sum, Summary, SummaryDataPoint,
};
use glint::query::{api_limit, list_trace_infos, service_names, ListLogsQuery, TraceInfo};
use glint::span::{Span, SpanKind, Status, StatusCode};
use glint::storage::{
    effective_limit, finish_trace_listing, metric_type_text, order_by_start, parse_metric_type,
    parse_severity_level, parse_span_kind, parse_temporality, span_kind_text, temporality_text,
    trace_from_spans, StorageError,
};
use glint::text::text_less;
use glint::trace::Trace;

fn svc_resource(name: &str) -> Option<Resource> {
    Some(Resource {
        attributes: vec![KeyValue { key: "service.name".to_string(), value: AnyValue::String(name.to_string()) }],
    })
}

fn wire_span(trace_id: Vec<u8>, span_id: Vec<u8>, parent: Vec<u8>, start: u64, end: u64, code: i32, message: &str) -> WireSpan {
    WireSpan {
        trace_id,
        span_id,
        parent_span_id: parent,
        name: "op".to_string(),
        kind: 2,
        start_time_unix_nano: start,
        end_time_unix_nano: end,
        attributes: vec![],
        status: Some(WireStatus { message: message.to_string(), code }),
    }
}

fn ids16() -> Vec<u8> {
    (1..=16).collect()
}

fn ids8() -> Vec<u8> {
    (1..=8).collect()
}

fn stored_span(id: &str, trace: &str, parent: Option<&str>, start: i64, end: i64, service: Option<&str>, error: bool) -> Span {
    Span::new(
        id.to_string(),
        trace.to_string(),
        parent.map(|p| p.to_string()),
        "op".to_string(),
        SpanKind::Server,
        start,
        end,
        Attributes::new(),
        if error { Status::error("boom") } else { Status::ok() },
        service.map(|s| s.to_string()),
    )
}

#[test]
fn export_one_span_lists_one_trace() {
    let request = vec![ResourceSpans {
        resource: svc_resource("svc-A"),
        scope_spans: vec![ScopeSpans {
            spans: vec![wire_span(ids16(), ids8(), vec![], 1_000_000_000, 1_100_000_000, 1, "")],
        }],
    }];
    let spans = convert_resource_spans(&request);
    assert_eq!(spans.len(), 1);
    assert_eq!(spans[0].trace_id, "0102030405060708090a0b0c0d0e0f10");
    assert_eq!(spans[0].span_id, "0102030405060708");
    assert_eq!(spans[0].kind, SpanKind::Server);
    assert_eq!(spans[0].status.code, StatusCode::Success);
    let outcome = span_export_outcome(&spans, &vec![None]);
    assert_eq!(outcome, None);
    assert_eq!(http_export_reply(&outcome), (200, String::new()));
    let trace = trace_from_spans("0102030405060708090a0b0c0d0e0f10", spans).unwrap();
    let listed = finish_trace_listing(vec![Ok(trace)], None, api_limit(None));
    let page = list_trace_infos(&listed, None, None, None);
    assert_eq!(page.total, 1);
    let info: &TraceInfo = &page.traces[0];
    assert_eq!(info.trace_id, "0102030405060708090a0b0c0d0e0f10");
    assert_eq!(info.service_name, Some("svc-A".to_string()));
    assert_eq!(info.duration_nanos, 100_000_000);
    assert_eq!(info.span_count, 1);
    assert!(!info.has_errors);
    assert_eq!(info.start_time, Some(1_000_000_000));
}

#[test]
fn export_error_span_reports_errors() {
    let request = vec![ResourceSpans {
        resource: svc_resource("svc-A"),
        scope_spans: vec![ScopeSpans {
            spans: vec![wire_span(ids16(), ids8(), vec![], 1_000_000_000, 1_100_000_000, 2, "boom")],
        }],
    }];
    let spans = convert_resource_spans(&request);
    let trace = trace_from_spans("0102030405060708090a0b0c0d0e0f10", spans).unwrap();
    assert_eq!(trace.spans[0].status.code, StatusCode::Error);
    assert_eq!(trace.spans[0].status.message, Some("boom".to_string()));
    assert!(trace.has_errors());
    assert!(TraceInfo::from_trace(&trace).has_errors);
}

#[test]
fn export_parent_and_child_links_children() {
    let request = vec![ResourceSpans {
        resource: None,
        scope_spans: vec![ScopeSpans {
            spans: vec![
                wire_span(ids16(), vec![1; 8], vec![], 10, 20, 0, ""),
                wire_span(ids16(), vec![2; 8], vec![1; 8], 12, 18, 0, ""),
            ],
        }],
    }];
    let spans = convert_resource_spans(&request);
    let trace = trace_from_spans("0102030405060708090a0b0c0d0e0f10", spans).unwrap();
    assert_eq!(trace.span_count(), 2);
    let children = trace.children_of("0101010101010101");
    assert_eq!(children.len(), 1);
    assert_eq!(children[0].span_id, "0202020202020202");
    assert_eq!(trace.service_name, None);
}

#[test]
fn gauge_with_two_points_gives_two_rows() {
    let request = vec![ResourceMetrics {
        resource: svc_resource("host"),
        scope_metrics: vec![ScopeMetrics {
            metrics: vec![glint::otlp::Metric {
                name: "cpu".to_string(),
                description: String::new(),
                unit: String::new(),
                data: Some(MetricData::Gauge(Gauge {
                    data_points: vec![
                        NumberDataPoint { attributes: vec![], start_time_unix_nano: 1, time_unix_nano: 2, value: Some(NumberValue::AsDouble(0.25f64.to_bits())) },
                        NumberDataPoint { attributes: vec![], start_time_unix_nano: 1, time_unix_nano: 3, value: Some(NumberValue::AsDouble(0.75f64.to_bits())) },
                    ],
                })),
            }],
        }],
    }];
    let metrics = convert_resource_metrics(&request);
    assert_eq!(metrics.len(), 1);
    let m: &Metric = &metrics[0];
    assert_eq!(m.data_point_count(), 2);
    assert_eq!(m.name, "cpu");
    assert_eq!(metric_type_text(m.metric_type), "Gauge");
    assert_eq!(temporality_text(m.temporality), "Unspecified");
    assert_eq!(m.data_points[0].value, MetricValue::Double(0.25f64.to_bits()));
    assert_eq!(m.data_points[1].value, MetricValue::Double(0.75f64.to_bits()));
    assert_eq!(m.service_name, Some("host".to_string()));
}

#[test]
fn metric_kinds_and_temporality() {
    let metric = |data: Option<MetricData>| glint::otlp::Metric { name: "m".to_string(), description: "d".to_string(), unit: "u".to_string(), data };
    let request = vec![ResourceMetrics {
        resource: None,
        scope_metrics: vec![ScopeMetrics {
            metrics: vec![
                metric(Some(MetricData::Sum(Sum {
                    data_points: vec![NumberDataPoint { attributes: vec![], start_time_unix_nano: 0, time_unix_nano: 1, value: Some(NumberValue::AsInt(7)) }],
                    aggregation_temporality: 1,
                    is_monotonic: true,
                }))),
                metric(None),
                metric(Some(MetricData::Histogram(Histogram {
                    data_points: vec![
                        HistogramDataPoint { attributes: vec![], start_time_unix_nano: 0, time_unix_nano: 1, count: 4, sum: None },
                        HistogramDataPoint { attributes: vec![], start_time_unix_nano: 0, time_unix_nano: 1, count: 4, sum: Some(2.5f64.to_bits()) },
                    ],
                    aggregation_temporality: 9,
                }))),
                metric(Some(MetricData::Summary(Summary {
                    data_points: vec![SummaryDataPoint { attributes: vec![], start_time_unix_nano: 0, time_unix_nano: 1, count: 2, sum: 1.5f64.to_bits() }],
                }))),
            ],
        }],
    }];
    let metrics = convert_resource_metrics(&request);
    assert_eq!(metrics.len(), 3);
    assert_eq!(metrics[0].metric_type, MetricType::Sum);
    assert_eq!(metrics[0].temporality, AggregationTemporality::Delta);
    assert_eq!(metrics[0].data_points[0].value, MetricValue::Int(7));
    assert_eq!(metrics[0].description, Some("d".to_string()));
    assert_eq!(metrics[1].metric_type, MetricType::Histogram);
    assert_eq!(metrics[1].temporality, AggregationTemporality::Unspecified);
    assert_eq!(metrics[1].data_points[0].value, MetricValue::Count(4));
    assert_eq!(metrics[1].data_points[1].value, MetricValue::Double(2.5f64.to_bits()));
    assert_eq!(metrics[2].metric_type, MetricType::Summary);
    assert_eq!(metrics[2].data_points[0].value, MetricValue::Double(1.5f64.to_bits()));
    assert_eq!(convert_temporality(2), AggregationTemporality::Cumulative);
    assert_eq!(convert_temporality(0), AggregationTemporality::Unspecified);
}

#[test]
fn duplicate_span_is_rejected_once() {
    let span = stored_span("s1", "t1", None, 1, 2, None, false);
    let err = StorageError::Database("UNIQUE constraint failed".to_string());
    let outcome = span_export_outcome(&vec![span], &vec![Some(err)]).unwrap();
    assert_eq!(outcome.rejected, 1);
    assert_eq!(outcome.error_message, "span s1: Database error: UNIQUE constraint failed");
    assert_eq!(http_export_reply(&Some(outcome.clone())), (500, outcome.error_message.clone()));
}

#[test]
fn failures_are_counted_and_joined() {
    let spans = vec![
        stored_span("a", "t", None, 1, 2, None, false),
        stored_span("b", "t", None, 1, 2, None, false),
        stored_span("c", "t", None, 1, 2, None, false),
    ];
    let results = vec![Some(StorageError::NotFound("x".to_string())), None, Some(StorageError::InvalidInput("y".to_string()))];
    let outcome = span_export_outcome(&spans, &results).unwrap();
    assert_eq!(outcome.rejected, 2);
    assert_eq!(outcome.error_message, "span a: Not found: x; span c: Invalid input: y");
}

#[test]
fn empty_export_has_no_partial_success() {
    let spans = convert_resource_spans(&vec![]);
    assert!(spans.is_empty());
    let outcome = span_export_outcome(&spans, &vec![]);
    assert_eq!(outcome, None);
    assert_eq!(http_export_reply(&outcome).0, 200);
}

#[test]
fn metric_failures_count_points_and_cap_messages() {
    let point = glint::metric::MetricDataPoint::new(1, None, MetricValue::Int(1), Attributes::new());
    let mut metrics = Vec::new();
    let mut results = Vec::new();
    for _ in 0..7 {
        metrics.push(Metric::gauge("m".to_string(), vec![point.clone(), point.clone()], None));
        results.push(Some(StorageError::Serialization("bad".to_string())));
    }
    let outcome = metric_export_outcome(&metrics, &results).unwrap();
    assert_eq!(outcome.rejected, 14);
    assert_eq!(outcome.error_message.matches("Error inserting metric: Serialization error: bad").count(), 5);
    assert_eq!(metric_export_outcome(&metrics, &vec![None; 7]), None);
}

#[test]
fn log_failures_name_the_span() {
    let request = vec![ResourceLogs {
        resource: svc_resource("auth"),
        scope_logs: vec![ScopeLogs {
            log_records: vec![LogRecord {
                time_unix_nano: 5,
                severity_number: 9,
                severity_text: "info".to_string(),
                body: AnyValue::String("hello".to_string()),
                attributes: vec![],
                trace_id: vec![0xab],
                span_id: vec![],
            }],
        }],
    }];
    let logs = convert_resource_logs(&request);
    assert_eq!(logs.len(), 1);
    assert_eq!(logs[0].severity_level, SeverityLevel::Info);
    assert_eq!(logs[0].severity_text, Some("INFO".to_string()));
    assert_eq!(logs[0].body, "hello");
    assert_eq!(logs[0].trace_id, Some("ab".to_string()));
    assert_eq!(logs[0].span_id, None);
    assert_eq!(logs[0].service_name, Some("auth".to_string()));
    let outcome = log_export_outcome(&logs, &vec![Some(StorageError::Database("locked".to_string()))]).unwrap();
    assert_eq!(outcome.rejected, 1);
    assert_eq!(outcome.error_message, "span none: Database error: locked");
}

#[test]
fn unknown_severity_numbers_are_unspecified() {
    assert_eq!(convert_log_severity_level(9), SeverityLevel::Info);
    assert_eq!(convert_log_severity_level(24), SeverityLevel::Fatal4);
    assert_eq!(convert_log_severity_level(25), SeverityLevel::Unspecified);
    assert_eq!(convert_log_severity_level(-3), SeverityLevel::Unspecified);
}

#[test]
fn any_value_texts() {
    assert_eq!(convert_any_value_to_string(&AnyValue::Empty), None);
    assert_eq!(convert_any_value_to_string(&AnyValue::Bool(true)), Some("true".to_string()));
    assert_eq!(convert_any_value_to_string(&AnyValue::Int(-120)), Some("-120".to_string()));
    assert_eq!(convert_any_value_to_string(&AnyValue::Int(i64::MIN)), Some(i64::MIN.to_string()));
    assert_eq!(convert_any_value_to_string(&AnyValue::Int(0)), Some("0".to_string()));
    assert_eq!(convert_any_value_to_string(&AnyValue::Double(1.5f64.to_bits(), 1.5f64.to_string())), Some("1.5".to_string()));
    assert_eq!(convert_any_value_to_string(&AnyValue::Bytes(vec![0xde, 0xad])), Some("dead".to_string()));
    assert_eq!(
        convert_any_value_to_string(&AnyValue::Array(vec![AnyValue::Int(1), AnyValue::Empty, AnyValue::String("x".to_string())])),
        Some("[1,x]".to_string())
    );
    assert_eq!(convert_any_value_to_string(&AnyValue::Kvlist(vec![])), Some("<kvlist unsupported>".to_string()));
}

#[test]
fn conversion_is_deterministic() {
    let request = vec![ResourceSpans {
        resource: svc_resource("svc"),
        scope_spans: vec![ScopeSpans { spans: vec![wire_span(ids16(), ids8(), vec![9; 8], 3, 9, 2, "m")] }],
    }];
    assert_eq!(convert_resource_spans(&request), convert_resource_spans(&request));
}

#[test]
fn unknown_trace_is_not_found() {
    match trace_from_spans("missing", vec![]) {
        Err(StorageError::NotFound(m)) => assert_eq!(m, "Trace not found: missing"),
        _ => panic!("expected NotFound"),
    }
}

#[test]
fn trace_spans_are_ordered_by_start() {
    let spans = vec![
        stored_span("c", "t", None, 30, 40, None, false),
        stored_span("a", "t", None, 10, 50, None, false),
        stored_span("b", "t", Some("a"), 20, 25, None, false),
    ];
    let trace = trace_from_spans("t", spans).unwrap();
    let ids: Vec<&str> = trace.spans.iter().map(|s| s.span_id.as_str()).collect();
    assert_eq!(ids, vec!["a", "b", "c"]);
    let sorted = order_by_start(vec![]);
    assert!(sorted.is_empty());
}

#[test]
fn listing_skips_failures_and_honours_service_and_limit() {
    let t = |id: &str, svc: &str| Trace::new(id.to_string(), vec![stored_span("s", id, None, 1, 2, Some(svc), false)]);
    let results = vec![
        Ok(t("1", "a")),
        Err(StorageError::NotFound("gone".to_string())),
        Ok(t("2", "b")),
        Ok(t("3", "a")),
        Ok(t("4", "a")),
    ];
    let listed = finish_trace_listing(results, Some("a"), 2);
    let ids: Vec<&str> = listed.iter().map(|t| t.trace_id.as_str()).collect();
    assert_eq!(ids, vec!["1", "3"]);
    assert_eq!(effective_limit(None), 100);
    assert_eq!(effective_limit(Some(7)), 7);
}

#[test]
fn min_duration_filter_keeps_slow_traces() {
    let t = |id: &str, ms: i64| Trace::new(id.to_string(), vec![stored_span("s", id, None, 0, ms * 1_000_000, None, false)]);
    let traces = vec![t("fast", 50), t("mid", 150), t("slow", 500)];
    let page = list_trace_infos(&traces, Some(100_000_000), None, None);
    assert_eq!(page.total, 2);
    assert_eq!(page.traces[0].trace_id, "mid");
    assert_eq!(page.traces[1].trace_id, "slow");
    let page = list_trace_infos(&traces, None, Some(150_000_000), Some(1));
    assert_eq!(page.total, 1);
    assert_eq!(page.traces[0].trace_id, "mid");
    let page = list_trace_infos(&traces, None, None, Some(5));
    assert_eq!(page.total, 0);
}

#[test]
fn api_limits() {
    assert_eq!(api_limit(None), 100);
    assert_eq!(api_limit(Some(5)), 5);
    assert_eq!(api_limit(Some(5000)), 1000);
    let q = ListLogsQuery { service: None, level: Some("ERROR".to_string()), limit: Some(2000) };
    assert_eq!(q.effective_limit(), 1000);
}

#[test]
fn services_are_distinct() {
    let t = |id: &str, svc: Option<&str>| Trace::new(id.to_string(), vec![stored_span("s", id, None, 1, 2, svc, false)]);
    let traces = vec![t("1", Some("b")), t("2", None), t("3", Some("a")), t("4", Some("b"))];
    assert_eq!(service_names(&traces), vec!["a".to_string(), "b".to_string()]);
    let t2 = |id: &str, svc: &str| Trace::new(id.to_string(), vec![stored_span("s", id, None, 1, 2, Some(svc), false)]);
    let mixed = vec![t2("1", "zeta"), t2("2", "Zeta"), t2("3", "ab"), t2("4", "a"), t2("5", "é"), t2("6", "ab")];
    let mut expected: Vec<String> = vec!["zeta", "Zeta", "ab", "a", "é"].into_iter().map(String::from).collect();
    expected.sort();
    assert_eq!(service_names(&mixed), expected);
}

#[test]
fn enum_columns_round_trip() {
    for k in [SpanKind::Unspecified, SpanKind::Internal, SpanKind::Server, SpanKind::Client, SpanKind::Producer, SpanKind::Consumer] {
        assert_eq!(parse_span_kind(span_kind_text(k)), k);
    }
    for t in [MetricType::Gauge, MetricType::Sum, MetricType::Histogram, MetricType::Summary] {
        assert_eq!(parse_metric_type(metric_type_text(t)), t);
    }
    for t in [AggregationTemporality::Unspecified, AggregationTemporality::Delta, AggregationTemporality::Cumulative] {
        assert_eq!(parse_temporality(temporality_text(t)), t);
    }
    assert_eq!(parse_metric_type("nonsense"), MetricType::Gauge);
    assert_eq!(parse_span_kind("nonsense"), SpanKind::Unspecified);
    assert_eq!(parse_severity_level("Warn"), SeverityLevel::Warn);
    assert_eq!(parse_severity_level("Info2"), SeverityLevel::Unspecified);
}

#[test]
fn storage_error_messages() {
    assert_eq!(StorageError::NotFound("x".to_string()).message(), "Not found: x");
    assert_eq!(StorageError::Serialization("y".to_string()).message(), "Serialization error: y");
}

#[test]
fn test_project_path_to_db_name() {
    assert_eq!(project_path_to_db_name("/home/user/projects/myapp"), "home_user_projects_myapp");
    let windows_result = project_path_to_db_name("C:\\Users\\user\\projects\\myapp");
    assert!(windows_result.contains("users_user_projects_myapp"));
    assert_eq!(project_path_to_db_name("/home/user/my projects/app"), "home_user_my_projects_app");
}

#[test]
fn test_project_path_to_db_name_long() {
    let long_path = format!("/home/user/{}", "a".repeat(200));
    let db_name = project_path_to_db_name(&long_path);
    assert!(db_name.starts_with("project_"));
    assert!(db_name.len() < 30);
    assert_eq!(db_name, project_path_to_db_name(&long_path));
}

#[test]
fn db_names_of_edge_paths() {
    assert_eq!(project_path_to_db_name("/"), "default");
    assert_eq!(project_path_to_db_name(""), "default");
    assert_eq!(project_path_to_db_name("/A/B/"), "a_b");
}

#[test]
fn database_paths() {
    assert_eq!(get_default_db_path("/data/glint"), "/data/glint/default.db");
    assert_eq!(get_project_db_path("/data/glint", "/home/u/app"), "/data/glint/home_u_app.db");
    assert_eq!(unix_data_dir(Some("/x"), Some("/home/u")), "/x/glint");
    assert_eq!(unix_data_dir(None, Some("/home/u")), "/home/u/.local/share/glint");
    assert_eq!(unix_config_dir(None, None), "./.config/glint");
    assert_eq!(windows_data_dir(None, Some("C:/AppData")), "C:/AppData/glint");
    assert_eq!(project_markers().len(), 8);
    let candidates = vec!["/a/b".to_string(), "/a".to_string(), "/".to_string()];
    assert_eq!(choose_project_root(&candidates, &vec![false, true, true], "/a/b"), "/a");
    assert_eq!(choose_project_root(&candidates, &vec![false, false, false], "/a/b"), "/a/b");
    assert_eq!(choose_db_path(Some("/tmp/x.db"), "/d/p.db"), "/tmp/x.db");
    assert_eq!(choose_db_path(None, "/d/p.db"), "/d/p.db");
}

#[test]
fn assets_are_resolved() {
    let assets = vec!["dist/index.html".to_string(), "dist/app.js".to_string(), "dist/docs/index.html".to_string()];
    assert_eq!(resolve_asset("/", &assets), Some("index.html".to_string()));
    assert_eq!(resolve_asset("/app.js", &assets), Some("app.js".to_string()));
    assert_eq!(resolve_asset("/docs/", &assets), Some("docs/index.html".to_string()));
    assert_eq!(resolve_asset("/traces/abc", &assets), Some("index.html".to_string()));
    assert_eq!(resolve_asset("/missing.css", &assets), None);
    assert_eq!(resolve_asset("/../secret", &assets), None);
    assert_eq!(resolve_asset("/a/../app.js", &assets), None);
    assert_eq!(prefix_dist("x.js"), "dist/x.js");
    assert_eq!(asset_media_type("index.html"), "text/html");
    assert_eq!(asset_media_type("blob"), "application/octet-stream");
    assert_eq!(resolve_response("/app.js", &assets).map(|(p, _)| p), Some("app.js".to_string()));
}

#[test]
fn cli_choices() {
    let c = Commands::Traces { slow: true, db_path: Some("/x.db".to_string()) };
    assert_eq!(c.db_path(), Some(&"/x.db".to_string()));
    assert_eq!(Commands::Info.db_path(), None);
    assert!(listed_in_traces(false, 5));
    assert!(!listed_in_traces(true, 100_000_000));
    assert!(listed_in_traces(true, 100_000_001));
}

#[test]
fn text_order_is_code_point_order() {
    assert!(text_less("a", "b"));
    assert!(text_less("Z", "a"));
    assert!(text_less("ab", "abc"));
    assert!(!text_less("abc", "ab"));
    assert!(!text_less("same", "same"));
    assert!(text_less("", "x"));
    assert!(text_less("z", "é"));
    assert_eq!(text_less("é", "ü"), "é" < "ü");
}
