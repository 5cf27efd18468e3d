//! Conversion of OTLP log exports into log records.
use vstd::prelude::*;
use crate::convert::{any_text, attrs_from, convert_any_value_to_string, convert_attributes, resource_service, service_of};
use crate::convert::traces::id_of;
use crate::log::{Log, SeverityLevel, severity_class, severity_number};
use crate::otlp;
use crate::span::{copy_opt, opt_view};
use crate::text::{bytes_to_hex, owned};

verus! {

/// `l` is the record that wire record `w` becomes under service `svc`.
pub open spec fn log_converted(w: otlp::LogRecord, svc: Option<Seq<char>>, l: Log) -> bool {
    &&& l.time_unix_nano == w.time_unix_nano as i64
    &&& (0 <= w.severity_number <= 24 ==> severity_number(l.severity_level) == w.severity_number)
    &&& (!(0 <= w.severity_number <= 24) ==> l.severity_level == SeverityLevel::Unspecified)
    &&& opt_view(l.severity_text) == Some(severity_class(l.severity_level))
    &&& l.body@ == match any_text(w.body) {
        Some(t) => t,
        None => Seq::empty(),
    }
    &&& l.attributes@ == attrs_from(w.attributes@)
    &&& opt_view(l.trace_id) == id_of(w.trace_id@)
    &&& opt_view(l.span_id) == id_of(w.span_id@)
    &&& opt_view(l.service_name) == svc
}

pub open spec fn scope_logs_flat(ss: Seq<otlp::ScopeLogs>) -> Seq<otlp::LogRecord>
    decreases ss.len(),
{
    if ss.len() == 0 {
        Seq::empty()
    } else {
        scope_logs_flat(ss.drop_last()) + ss.last().log_records@
    }
}

pub open spec fn logs_with_service(s: Seq<otlp::LogRecord>, svc: Option<Seq<char>>) -> Seq<(otlp::LogRecord, Option<Seq<char>>)> {
    s.map_values(|x: otlp::LogRecord| (x, svc))
}

/// The wire records of a list of resources, in order, each with its service.
pub open spec fn resource_logs_flat(rs: Seq<otlp::ResourceLogs>) -> Seq<(otlp::LogRecord, Option<Seq<char>>)>
    decreases rs.len(),
{
    if rs.len() == 0 {
        Seq::empty()
    } else {
        resource_logs_flat(rs.drop_last()) + logs_with_service(
            scope_logs_flat(rs.last().scope_logs@),
            resource_service(rs.last().resource),
        )
    }
}

pub open spec fn logs_converted(w: Seq<(otlp::LogRecord, Option<Seq<char>>)>, out: Seq<Log>) -> bool {
    &&& out.len() == w.len()
    &&& forall|k: int| 0 <= k < w.len() ==> log_converted(#[trigger] w[k].0, w[k].1, out[k])
}

/// Maps a wire severity number; unknown numbers give `Unspecified`.
pub fn convert_log_severity_level(kind: i32) -> (r: SeverityLevel)
    ensures
        0 <= kind <= 24 ==> severity_number(r) == kind,
        !(0 <= kind <= 24) ==> r == SeverityLevel::Unspecified,
{
    SeverityLevel::from_number(kind)
}

fn optional_id(bytes: &Vec<u8>) -> (r: Option<String>)
    ensures
        opt_view(r) == id_of(bytes@),
{
    if bytes.len() == 0 {
        None
    } else {
        Some(bytes_to_hex(bytes.as_slice()))
    }
}

/// Converts one wire record under the service name of its resource.
pub fn convert_log(log: &otlp::LogRecord, service_name: Option<String>) -> (r: Log)
    ensures
        log_converted(*log, opt_view(service_name), r),
{
    let trace_id = optional_id(&log.trace_id);
    let span_id = optional_id(&log.span_id);
    let severity_level = convert_log_severity_level(log.severity_number);
    let severity_text = Some(owned(severity_level.as_str()));
    let attributes = convert_attributes(&log.attributes);
    let body = match convert_any_value_to_string(&log.body) {
        Some(t) => t,
        None => String::new(),
    };
    Log::new(
        log.time_unix_nano as i64,
        severity_level,
        severity_text,
        body,
        attributes,
        trace_id,
        span_id,
        service_name,
    )
}

/// Converts every record of every scope of every resource, in wire order;
/// each record carries the `service.name` of its resource.
pub fn convert_resource_logs(resource_logs: &Vec<otlp::ResourceLogs>) -> (r: Vec<Log>)
    ensures
        logs_converted(resource_logs_flat(resource_logs@), r@),
{
    let mut out: Vec<Log> = Vec::new();
    let mut a: usize = 0;
    while a < resource_logs.len()
        invariant
            a <= resource_logs@.len(),
            logs_converted(resource_logs_flat(resource_logs@.subrange(0, a as int)), out@),
        decreases resource_logs@.len() - a,
    {
        let rs = &resource_logs[a];
        let service_name = service_of(&rs.resource);
        let ghost svc = opt_view(service_name);
        let ghost done = resource_logs_flat(resource_logs@.subrange(0, a as int));
        let mut b: usize = 0;
        while b < rs.scope_logs.len()
            invariant
                b <= rs.scope_logs@.len(),
                svc == opt_view(service_name),
                logs_converted(
                    done + logs_with_service(scope_logs_flat(rs.scope_logs@.subrange(0, b as int)), svc),
                    out@,
                ),
            decreases rs.scope_logs@.len() - b,
        {
            let records = &rs.scope_logs[b].log_records;
            let ghost before = scope_logs_flat(rs.scope_logs@.subrange(0, b as int));
            let mut c: usize = 0;
            while c < records.len()
                invariant
                    c <= records@.len(),
                    svc == opt_view(service_name),
                    logs_converted(done + logs_with_service(before + records@.subrange(0, c as int), svc), out@),
                decreases records@.len() - c,
            {
                let converted = convert_log(&records[c], copy_opt(&service_name));
                let ghost target = done + logs_with_service(before + records@.subrange(0, c as int), svc);
                out.push(converted);
                assert(done + logs_with_service(before + records@.subrange(0, c + 1), svc) =~= target.push(
                    (records@[c as int], svc),
                ));
                c = c + 1;
            }
            assert(records@.subrange(0, records@.len() as int) =~= records@);
            assert(rs.scope_logs@.subrange(0, b + 1).drop_last() =~= rs.scope_logs@.subrange(0, b as int));
            b = b + 1;
        }
        assert(rs.scope_logs@.subrange(0, rs.scope_logs@.len() as int) =~= rs.scope_logs@);
        assert(resource_logs@.subrange(0, a + 1).drop_last() =~= resource_logs@.subrange(0, a as int));
        a = a + 1;
    }
    assert(resource_logs@.subrange(0, resource_logs@.len() as int) =~= resource_logs@);
    out
}

/// Severity numbers outside 0 to 24 map to `Unspecified`.
pub proof fn lemma_unknown_severity_is_neutral(w: otlp::LogRecord, svc: Option<Seq<char>>, l: Log)
    requires
        log_converted(w, svc, l),
        !(0 <= w.severity_number <= 24),
    ensures
        l.severity_level == SeverityLevel::Unspecified,
{
}

/// Converting the same log export twice gives the same records, position
/// for position.
pub proof fn lemma_log_conversion_deterministic(rs: Seq<otlp::ResourceLogs>, a: Seq<Log>, b: Seq<Log>)
    requires
        logs_converted(resource_logs_flat(rs), a),
        logs_converted(resource_logs_flat(rs), b),
    ensures
        a.len() == b.len(),
        forall|k: int| 0 <= k < a.len() ==> {
            &&& (#[trigger] a[k]).time_unix_nano == b[k].time_unix_nano
            &&& a[k].severity_level == b[k].severity_level
            &&& opt_view(a[k].severity_text) == opt_view(b[k].severity_text)
            &&& a[k].body@ == b[k].body@
            &&& a[k].attributes@ == b[k].attributes@
            &&& opt_view(a[k].trace_id) == opt_view(b[k].trace_id)
            &&& opt_view(a[k].span_id) == opt_view(b[k].span_id)
            &&& opt_view(a[k].service_name) == opt_view(b[k].service_name)
        },
{
    let w = resource_logs_flat(rs);
    assert forall|k: int| 0 <= k < a.len() implies {
        &&& (#[trigger] a[k]).time_unix_nano == b[k].time_unix_nano
        &&& a[k].severity_level == b[k].severity_level
        &&& opt_view(a[k].severity_text) == opt_view(b[k].severity_text)
        &&& a[k].body@ == b[k].body@
        &&& a[k].attributes@ == b[k].attributes@
        &&& opt_view(a[k].trace_id) == opt_view(b[k].trace_id)
        &&& opt_view(a[k].span_id) == opt_view(b[k].span_id)
        &&& opt_view(a[k].service_name) == opt_view(b[k].service_name)
    } by {
        assert(log_converted(w[k].0, w[k].1, a[k]));
        assert(log_converted(w[k].0, w[k].1, b[k]));
        if 0 <= w[k].0.severity_number <= 24 {
            lemma_severity_number_injective(a[k].severity_level, b[k].severity_level);
        }
    }
}

/// Distinct severity levels have distinct numbers.
pub proof fn lemma_severity_number_injective(x: SeverityLevel, y: SeverityLevel)
    ensures
        severity_number(x) == severity_number(y) ==> x == y,
{
}

} // verus!
