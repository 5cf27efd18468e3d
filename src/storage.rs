//! The decisions of the store: how enum columns are written and read back,
//! when a trace lookup fails, and which hydrated traces a listing keeps.
use vstd::prelude::*;
use crate::log::SeverityLevel;
use crate::metric::{AggregationTemporality, MetricType};
use crate::span::{Span, SpanKind, opt_view};
use crate::text::{owned, same_text};
use crate::trace::{Trace, trace_service};

verus! {

/// Why a store operation failed; each carries a description.
#[derive(Debug, Clone, PartialEq, Eq)]
pub enum StorageError {
    Database(String),
    Serialization(String),
    NotFound(String),
    InvalidInput(String),
}

/// The text of an error: a label for its kind, then its description.
pub open spec fn error_text(e: StorageError) -> Seq<char> {
    match e {
        StorageError::Database(m) => "Database error: "@ + m@,
        StorageError::Serialization(m) => "Serialization error: "@ + m@,
        StorageError::NotFound(m) => "Not found: "@ + m@,
        StorageError::InvalidInput(m) => "Invalid input: "@ + m@,
    }
}

impl StorageError {
    /// The text of the error, as shown to operators and clients.
    pub fn message(&self) -> (r: String)
        ensures
            r@ == error_text(*self),
    {
        let (label, m) = match self {
            StorageError::Database(m) => ("Database error: ", m),
            StorageError::Serialization(m) => ("Serialization error: ", m),
            StorageError::NotFound(m) => ("Not found: ", m),
            StorageError::InvalidInput(m) => ("Invalid input: ", m),
        };
        let mut out = owned(label);
        out.append(m.as_str());
        out
    }
}

/// The column text of a span kind.
pub open spec fn span_kind_name(k: SpanKind) -> Seq<char> {
    match k {
        SpanKind::Unspecified => "Unspecified"@,
        SpanKind::Internal => "Internal"@,
        SpanKind::Server => "Server"@,
        SpanKind::Client => "Client"@,
        SpanKind::Producer => "Producer"@,
        SpanKind::Consumer => "Consumer"@,
    }
}

/// The column text of a metric type.
pub open spec fn metric_type_name(t: MetricType) -> Seq<char> {
    match t {
        MetricType::Gauge => "Gauge"@,
        MetricType::Sum => "Sum"@,
        MetricType::Histogram => "Histogram"@,
        MetricType::Summary => "Summary"@,
    }
}

/// The column text of a temporality.
pub open spec fn temporality_name(t: AggregationTemporality) -> Seq<char> {
    match t {
        AggregationTemporality::Unspecified => "Unspecified"@,
        AggregationTemporality::Delta => "Delta"@,
        AggregationTemporality::Cumulative => "Cumulative"@,
    }
}

/// The severity read back from a column: the six base names are known,
/// anything else reads as `Unspecified`.
pub open spec fn severity_named(s: Seq<char>) -> SeverityLevel {
    if s == "Info"@ {
        SeverityLevel::Info
    } else if s == "Warn"@ {
        SeverityLevel::Warn
    } else if s == "Error"@ {
        SeverityLevel::Error
    } else if s == "Debug"@ {
        SeverityLevel::Debug
    } else if s == "Trace"@ {
        SeverityLevel::Trace
    } else if s == "Fatal"@ {
        SeverityLevel::Fatal
    } else {
        SeverityLevel::Unspecified
    }
}

/// Writes a span kind as column text.
pub fn span_kind_text(k: SpanKind) -> (r: &'static str)
    ensures
        r@ == span_kind_name(k),
{
    match k {
        SpanKind::Unspecified => "Unspecified",
        SpanKind::Internal => "Internal",
        SpanKind::Server => "Server",
        SpanKind::Client => "Client",
        SpanKind::Producer => "Producer",
        SpanKind::Consumer => "Consumer",
    }
}

/// Writes a metric type as column text.
pub fn metric_type_text(t: MetricType) -> (r: &'static str)
    ensures
        r@ == metric_type_name(t),
{
    match t {
        MetricType::Gauge => "Gauge",
        MetricType::Sum => "Sum",
        MetricType::Histogram => "Histogram",
        MetricType::Summary => "Summary",
    }
}

/// Writes a temporality as column text.
pub fn temporality_text(t: AggregationTemporality) -> (r: &'static str)
    ensures
        r@ == temporality_name(t),
{
    match t {
        AggregationTemporality::Unspecified => "Unspecified",
        AggregationTemporality::Delta => "Delta",
        AggregationTemporality::Cumulative => "Cumulative",
    }
}

/// The metric type read back from a column; unknown text reads as `Gauge`.
pub open spec fn metric_type_named(s: Seq<char>) -> MetricType {
    if s == "Sum"@ {
        MetricType::Sum
    } else if s == "Histogram"@ {
        MetricType::Histogram
    } else if s == "Summary"@ {
        MetricType::Summary
    } else {
        MetricType::Gauge
    }
}

/// The temporality read back from a column; unknown text reads as
/// `Unspecified`.
pub open spec fn temporality_named(s: Seq<char>) -> AggregationTemporality {
    if s == "Delta"@ {
        AggregationTemporality::Delta
    } else if s == "Cumulative"@ {
        AggregationTemporality::Cumulative
    } else {
        AggregationTemporality::Unspecified
    }
}

/// The span kind read back from a column; unknown text reads as
/// `Unspecified`.
pub open spec fn span_kind_named(s: Seq<char>) -> SpanKind {
    if s == "Internal"@ {
        SpanKind::Internal
    } else if s == "Server"@ {
        SpanKind::Server
    } else if s == "Client"@ {
        SpanKind::Client
    } else if s == "Producer"@ {
        SpanKind::Producer
    } else if s == "Consumer"@ {
        SpanKind::Consumer
    } else {
        SpanKind::Unspecified
    }
}

/// Reads a metric type back from its column text.
pub fn parse_metric_type(type_str: &str) -> (r: MetricType)
    ensures
        r == metric_type_named(type_str@),
{
    if same_text(type_str, "Sum") {
        MetricType::Sum
    } else if same_text(type_str, "Histogram") {
        MetricType::Histogram
    } else if same_text(type_str, "Summary") {
        MetricType::Summary
    } else {
        MetricType::Gauge
    }
}

/// Reads a temporality back from its column text.
pub fn parse_temporality(temporality_str: &str) -> (r: AggregationTemporality)
    ensures
        r == temporality_named(temporality_str@),
{
    if same_text(temporality_str, "Delta") {
        AggregationTemporality::Delta
    } else if same_text(temporality_str, "Cumulative") {
        AggregationTemporality::Cumulative
    } else {
        AggregationTemporality::Unspecified
    }
}

/// Reads a span kind back from its column text.
pub fn parse_span_kind(kind_str: &str) -> (r: SpanKind)
    ensures
        r == span_kind_named(kind_str@),
{
    if same_text(kind_str, "Internal") {
        SpanKind::Internal
    } else if same_text(kind_str, "Server") {
        SpanKind::Server
    } else if same_text(kind_str, "Client") {
        SpanKind::Client
    } else if same_text(kind_str, "Producer") {
        SpanKind::Producer
    } else if same_text(kind_str, "Consumer") {
        SpanKind::Consumer
    } else {
        SpanKind::Unspecified
    }
}

/// Reads a severity back from its column text.
pub fn parse_severity_level(severity_str: &str) -> (r: SeverityLevel)
    ensures
        r == severity_named(severity_str@),
{
    if same_text(severity_str, "Info") {
        SeverityLevel::Info
    } else if same_text(severity_str, "Warn") {
        SeverityLevel::Warn
    } else if same_text(severity_str, "Error") {
        SeverityLevel::Error
    } else if same_text(severity_str, "Debug") {
        SeverityLevel::Debug
    } else if same_text(severity_str, "Trace") {
        SeverityLevel::Trace
    } else if same_text(severity_str, "Fatal") {
        SeverityLevel::Fatal
    } else {
        SeverityLevel::Unspecified
    }
}

/// The description of a missing trace.
pub fn not_found(trace_id: &str) -> (r: StorageError)
    ensures
        r matches StorageError::NotFound(m) && m@ == "Trace not found: "@ + trace_id@,
{
    let mut m = owned("Trace not found: ");
    m.append(trace_id);
    StorageError::NotFound(m)
}

/// Spans in ascending order of start time.
pub open spec fn sorted_by_start(s: Seq<Span>) -> bool {
    forall|i: int, j: int| 0 <= i < j < s.len() ==> s[i].start_time_unix_nano <= s[j].start_time_unix_nano
}

/// Orders spans by ascending start time.
pub fn order_by_start(spans: Vec<Span>) -> (r: Vec<Span>)
    ensures
        sorted_by_start(r@),
        r@.to_multiset() == spans@.to_multiset(),
{
    broadcast use vstd::seq_lib::group_to_multiset_ensures;
    let mut input = spans;
    let ghost orig = input@;
    let mut out: Vec<Span> = Vec::new();
    while input.len() > 0
        invariant
            sorted_by_start(out@),
            out@.to_multiset().add(input@.to_multiset()) == orig.to_multiset(),
        decreases input@.len(),
    {
        let ghost before_in = input@;
        let x = input.pop().unwrap();
        proof {
            assert(before_in =~= input@.push(x));
        }
        let mut j: usize = 0;
        while j < out.len() && out[j].start_time_unix_nano < x.start_time_unix_nano
            invariant
                j <= out@.len(),
                forall|k: int| 0 <= k < j ==> out@[k].start_time_unix_nano < x.start_time_unix_nano,
            decreases out@.len() - j,
        {
            j = j + 1;
        }
        let ghost before_out = out@;
        out.insert(j, x);
        proof {
            assert forall|a: int, b: int| 0 <= a < b < out@.len() implies out@[a].start_time_unix_nano
                <= out@[b].start_time_unix_nano by {
                if a < j && b == j {
                } else if a < j && b > j {
                    assert(out@[b] == before_out[b - 1]);
                } else if a == j {
                    assert(out@[b] == before_out[b - 1]);
                } else if b < j {
                } else {
                    assert(out@[a] == before_out[a - 1]);
                    assert(out@[b] == before_out[b - 1]);
                }
            }
            vstd::seq_lib::to_multiset_insert(before_out, j as int, x);
            vstd::seq_lib::to_multiset_build(input@, x);
            assert(out@.to_multiset() == before_out.to_multiset().insert(x));
            assert(before_in.to_multiset() == input@.to_multiset().insert(x));
            assert(out@.to_multiset().add(input@.to_multiset()) =~= before_out.to_multiset().add(
                before_in.to_multiset(),
            ));
        }
    }
    out
}

/// The trace made of the spans selected for an id, in ascending order of
/// start time: `NotFound` when there are none.
pub fn trace_from_spans(trace_id: &str, spans: Vec<Span>) -> (r: Result<Trace, StorageError>)
    ensures
        spans@.len() == 0 <==> r is Err,
        r matches Err(e) ==> e matches StorageError::NotFound(_),
        r matches Ok(t) ==> {
            &&& t.trace_id@ == trace_id@
            &&& sorted_by_start(t.spans@)
            &&& t.spans@.to_multiset() == spans@.to_multiset()
            &&& opt_view(t.service_name) == trace_service(t.spans@)
        },
{
    if spans.len() == 0 {
        return Err(not_found(trace_id));
    }
    Ok(Trace::new(owned(trace_id), order_by_start(spans)))
}

/// A span that was selected for a trace is one of the trace's spans.
pub proof fn lemma_selected_span_in_trace(spans: Seq<Span>, t: Trace, i: int)
    requires
        0 <= i < spans.len(),
        t.spans@.to_multiset() == spans.to_multiset(),
    ensures
        exists|k: int| 0 <= k < t.spans@.len() && t.spans@[k] == spans[i],
{
    broadcast use vstd::seq_lib::group_to_multiset_ensures;
    assert(spans.to_multiset().count(spans[i]) > 0);
    assert(t.spans@.contains(spans[i]));
}

/// The row limit of a listing: 100 unless given.
pub fn effective_limit(limit: Option<usize>) -> (r: usize)
    ensures
        r == match limit {
            Some(l) => l,
            None => 100,
        },
{
    match limit {
        Some(l) => l,
        None => 100,
    }
}

/// Whether a trace belongs to the requested service (any, when none is
/// requested).
pub open spec fn trace_in_service(t: Trace, service: Option<Seq<char>>) -> bool {
    match service {
        Some(s) => opt_view(t.service_name) == Some(s),
        None => true,
    }
}

/// The traces that hydrated and belong to the service, in order.
pub open spec fn kept_traces(results: Seq<Result<Trace, StorageError>>, service: Option<Seq<char>>) -> Seq<Trace>
    decreases results.len(),
{
    if results.len() == 0 {
        Seq::empty()
    } else {
        let rest = kept_traces(results.drop_last(), service);
        match results.last() {
            Ok(t) => if trace_in_service(t, service) {
                rest.push(t)
            } else {
                rest
            },
            Err(_) => rest,
        }
    }
}

/// The result of a trace listing: the traces that hydrated and belong to the
/// service, in order, at most `limit` of them.
pub open spec fn trace_listing(
    results: Seq<Result<Trace, StorageError>>,
    service: Option<Seq<char>>,
    limit: nat,
) -> Seq<Trace> {
    let kept = kept_traces(results, service);
    if kept.len() <= limit { kept } else { kept.take(limit as int) }
}

/// Every listed trace belongs to the service.
pub proof fn lemma_kept_in_service(results: Seq<Result<Trace, StorageError>>, service: Option<Seq<char>>)
    ensures
        forall|i: int| 0 <= i < kept_traces(results, service).len()
            ==> trace_in_service(#[trigger] kept_traces(results, service)[i], service),
    decreases results.len(),
{
    if results.len() > 0 {
        let rest = kept_traces(results.drop_last(), service);
        lemma_kept_in_service(results.drop_last(), service);
        assert forall|i: int| 0 <= i < kept_traces(results, service).len() implies trace_in_service(
            #[trigger] kept_traces(results, service)[i],
            service,
        ) by {
            if i < rest.len() {
                assert(trace_in_service(rest[i], service));
            }
        }
    }
}

/// What a prefix of the results keeps begins what all of them keep.
proof fn lemma_kept_prefix(all: Seq<Result<Trace, StorageError>>, n: int, service: Option<Seq<char>>)
    requires
        0 <= n <= all.len(),
    ensures
        kept_traces(all.subrange(0, n), service).len() <= kept_traces(all, service).len(),
        forall|i: int| 0 <= i < kept_traces(all.subrange(0, n), service).len()
            ==> kept_traces(all.subrange(0, n), service)[i] == kept_traces(all, service)[i],
    decreases all.len() - n,
{
    if n < all.len() {
        lemma_kept_prefix(all, n + 1, service);
        assert(all.subrange(0, n + 1).drop_last() =~= all.subrange(0, n));
    } else {
        assert(all.subrange(0, n) =~= all);
    }
}

/// Keeps the traces that hydrated and belong to the service, in order, up to
/// the limit; failed hydrations are skipped.
pub fn finish_trace_listing(
    results: Vec<Result<Trace, StorageError>>,
    service: Option<&str>,
    limit: usize,
) -> (r: Vec<Trace>)
    ensures
        r@ == trace_listing(
            results@,
            match service {
                Some(s) => Some(s@),
                None => None,
            },
            limit as nat,
        ),
        r@.len() <= limit,
        forall|i: int| 0 <= i < r@.len() ==> match service {
            Some(s) => opt_view(#[trigger] r@[i].service_name) == Some(s@),
            None => true,
        },
{
    let ghost svc = match service {
        Some(s) => Some(s@),
        None => None,
    };
    let mut out: Vec<Trace> = Vec::new();
    let mut results = results;
    let total = results.len();
    let ghost all = results@;
    assert(all.len() == total);
    let mut pending: Vec<Result<Trace, StorageError>> = Vec::new();
    while results.len() > 0
        invariant
            all.len() == results@.len() + pending@.len(),
            all.len() <= usize::MAX,
            forall|i: int| 0 <= i < results@.len() ==> results@[i] == all[i],
            forall|i: int| 0 <= i < pending@.len() ==> pending@[i] == all[all.len() - 1 - i],
        decreases results@.len(),
    {
        let x = results.pop().unwrap();
        pending.push(x);
    }
    let mut seen: usize = 0;
    while pending.len() > 0 && out.len() < limit
        invariant
            all.len() == seen + pending@.len(),
            all.len() <= usize::MAX,
            forall|i: int| 0 <= i < pending@.len() ==> pending@[i] == all[all.len() - 1 - i],
            out@ == kept_traces(all.subrange(0, seen as int), svc),
            out@.len() <= limit,
            svc == match service {
                Some(s) => Some(s@),
                None => None::<Seq<char>>,
            },
        decreases pending@.len(),
    {
        let x = pending.pop().unwrap();
        proof {
            assert(all.subrange(0, seen + 1).drop_last() =~= all.subrange(0, seen as int));
            assert(x == all[seen as int]);
        }
        match x {
            Ok(t) => {
                let belongs = match service {
                    Some(s) => match &t.service_name {
                        Some(n) => same_text(n.as_str(), s),
                        None => false,
                    },
                    None => true,
                };
                if belongs {
                    out.push(t);
                }
            },
            Err(_) => {},
        }
        seen = seen + 1;
    }
    proof {
        lemma_kept_prefix(all, seen as int, svc);
        lemma_kept_in_service(all.subrange(0, seen as int), svc);
        let kept = kept_traces(all, svc);
        if out@.len() < limit {
            assert(all.subrange(0, seen as int) =~= all);
        } else if kept.len() > limit {
            assert(out@ =~= kept.take(limit as int));
        } else {
            assert(out@ =~= kept);
        }
    }
    out
}

} // verus!
