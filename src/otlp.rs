//! The OTLP export messages as plain values, field for field as the
//! OpenTelemetry protobuf schema defines them. A floating-point field is held
//! as its IEEE-754 bit pattern (`f64::to_bits`).
use vstd::prelude::*;

verus! {

/// A variant-typed value. `Empty` stands for a value with no variant set.
/// A double carries its bit pattern and its shortest decimal rendering
/// (as `f64`'s `Display` writes it), both taken when the message is decoded.
#[derive(Debug)]
pub enum AnyValue {
    Empty,
    String(String),
    Bool(bool),
    Int(i64),
    Double(u64, String),
    Array(Vec<AnyValue>),
    Kvlist(Vec<KeyValue>),
    Bytes(Vec<u8>),
}

#[derive(Debug)]
pub struct KeyValue {
    pub key: String,
    pub value: AnyValue,
}

#[derive(Debug)]
pub struct Resource {
    pub attributes: Vec<KeyValue>,
}

#[derive(Debug)]
pub struct Status {
    pub message: String,
    pub code: i32,
}

#[derive(Debug)]
pub struct Span {
    pub trace_id: Vec<u8>,
    pub span_id: Vec<u8>,
    pub parent_span_id: Vec<u8>,
    pub name: String,
    pub kind: i32,
    pub start_time_unix_nano: u64,
    pub end_time_unix_nano: u64,
    pub attributes: Vec<KeyValue>,
    pub status: Option<Status>,
}

#[derive(Debug)]
pub struct ScopeSpans {
    pub spans: Vec<Span>,
}

#[derive(Debug)]
pub struct ResourceSpans {
    pub resource: Option<Resource>,
    pub scope_spans: Vec<ScopeSpans>,
}

#[derive(Debug)]
pub struct ExportTraceServiceRequest {
    pub resource_spans: Vec<ResourceSpans>,
}

#[derive(Debug)]
pub struct LogRecord {
    pub time_unix_nano: u64,
    pub severity_number: i32,
    pub severity_text: String,
    pub body: AnyValue,
    pub attributes: Vec<KeyValue>,
    pub trace_id: Vec<u8>,
    pub span_id: Vec<u8>,
}

#[derive(Debug)]
pub struct ScopeLogs {
    pub log_records: Vec<LogRecord>,
}

#[derive(Debug)]
pub struct ResourceLogs {
    pub resource: Option<Resource>,
    pub scope_logs: Vec<ScopeLogs>,
}

#[derive(Debug)]
pub struct ExportLogsServiceRequest {
    pub resource_logs: Vec<ResourceLogs>,
}

/// The number of a number data point: a double's bit pattern or an integer.
#[derive(Debug, Clone, Copy)]
pub enum NumberValue {
    AsDouble(u64),
    AsInt(i64),
}

#[derive(Debug)]
pub struct NumberDataPoint {
    pub attributes: Vec<KeyValue>,
    pub start_time_unix_nano: u64,
    pub time_unix_nano: u64,
    pub value: Option<NumberValue>,
}

#[derive(Debug)]
pub struct HistogramDataPoint {
    pub attributes: Vec<KeyValue>,
    pub start_time_unix_nano: u64,
    pub time_unix_nano: u64,
    pub count: u64,
    pub sum: Option<u64>,
}

#[derive(Debug)]
pub struct SummaryDataPoint {
    pub attributes: Vec<KeyValue>,
    pub start_time_unix_nano: u64,
    pub time_unix_nano: u64,
    pub count: u64,
    pub sum: u64,
}

#[derive(Debug)]
pub struct Gauge {
    pub data_points: Vec<NumberDataPoint>,
}

#[derive(Debug)]
pub struct Sum {
    pub data_points: Vec<NumberDataPoint>,
    pub aggregation_temporality: i32,
    pub is_monotonic: bool,
}

#[derive(Debug)]
pub struct Histogram {
    pub data_points: Vec<HistogramDataPoint>,
    pub aggregation_temporality: i32,
}

#[derive(Debug)]
pub struct Summary {
    pub data_points: Vec<SummaryDataPoint>,
}

/// The one kind of data a metric carries.
#[derive(Debug)]
pub enum MetricData {
    Gauge(Gauge),
    Sum(Sum),
    Histogram(Histogram),
    Summary(Summary),
}

#[derive(Debug)]
pub struct Metric {
    pub name: String,
    pub description: String,
    pub unit: String,
    pub data: Option<MetricData>,
}

#[derive(Debug)]
pub struct ScopeMetrics {
    pub metrics: Vec<Metric>,
}

#[derive(Debug)]
pub struct ResourceMetrics {
    pub resource: Option<Resource>,
    pub scope_metrics: Vec<ScopeMetrics>,
}

#[derive(Debug)]
pub struct ExportMetricsServiceRequest {
    pub resource_metrics: Vec<ResourceMetrics>,
}

} // verus!
