//! Conversion of OTLP trace exports into spans.
use vstd::prelude::*;
use crate::convert::{attrs_from, convert_attributes, resource_service, service_of};
use crate::otlp;
use crate::span::{Span, SpanKind, Status, StatusCode, copy_opt, opt_view};
use crate::text::{bytes_to_hex, hex_of};

verus! {

/// The span kind of a wire number; unknown numbers give `Unspecified`.
pub open spec fn span_kind_of(k: i32) -> SpanKind {
    if k == 1 {
        SpanKind::Internal
    } else if k == 2 {
        SpanKind::Server
    } else if k == 3 {
        SpanKind::Client
    } else if k == 4 {
        SpanKind::Producer
    } else if k == 5 {
        SpanKind::Consumer
    } else {
        SpanKind::Unspecified
    }
}

/// The status code of a wire number; unknown numbers give `Unset`.
pub open spec fn status_code_of(c: i32) -> StatusCode {
    if c == 1 {
        StatusCode::Success
    } else if c == 2 {
        StatusCode::Error
    } else {
        StatusCode::Unset
    }
}

/// An empty wire string stands for no message.
pub open spec fn message_of(m: Seq<char>) -> Option<Seq<char>> {
    if m.len() == 0 { None } else { Some(m) }
}

/// An empty wire id stands for no id.
pub open spec fn id_of(b: Seq<u8>) -> Option<Seq<char>> {
    if b.len() == 0 { None } else { Some(hex_of(b)) }
}

/// `s` is the span that wire span `w` becomes under service `svc`.
pub open spec fn span_converted(w: otlp::Span, svc: Option<Seq<char>>, s: Span) -> bool {
    &&& s.span_id@ == hex_of(w.span_id@)
    &&& s.trace_id@ == hex_of(w.trace_id@)
    &&& opt_view(s.parent_span_id) == id_of(w.parent_span_id@)
    &&& s.name@ == w.name@
    &&& s.kind == span_kind_of(w.kind)
    &&& s.start_time_unix_nano == w.start_time_unix_nano as i64
    &&& s.end_time_unix_nano == w.end_time_unix_nano as i64
    &&& s.attributes@ == attrs_from(w.attributes@)
    &&& match w.status {
        Some(st) => s.status.code == status_code_of(st.code) && opt_view(s.status.message)
            == message_of(st.message@),
        None => s.status.code == StatusCode::Unset && s.status.message is None,
    }
    &&& opt_view(s.service_name) == svc
}

/// The wire spans of a list of scopes, in order.
pub open spec fn scope_spans_flat(ss: Seq<otlp::ScopeSpans>) -> Seq<otlp::Span>
    decreases ss.len(),
{
    if ss.len() == 0 {
        Seq::empty()
    } else {
        scope_spans_flat(ss.drop_last()) + ss.last().spans@
    }
}

/// Each wire span paired with the service name of its resource.
pub open spec fn with_service(s: Seq<otlp::Span>, svc: Option<Seq<char>>) -> Seq<(otlp::Span, Option<Seq<char>>)> {
    s.map_values(|x: otlp::Span| (x, svc))
}

/// The wire spans of a list of resources, in order, each with its service.
pub open spec fn resource_spans_flat(rs: Seq<otlp::ResourceSpans>) -> Seq<(otlp::Span, Option<Seq<char>>)>
    decreases rs.len(),
{
    if rs.len() == 0 {
        Seq::empty()
    } else {
        resource_spans_flat(rs.drop_last()) + with_service(
            scope_spans_flat(rs.last().scope_spans@),
            resource_service(rs.last().resource),
        )
    }
}

/// Every span converted, position for position.
pub open spec fn spans_converted(w: Seq<(otlp::Span, Option<Seq<char>>)>, out: Seq<Span>) -> bool {
    &&& out.len() == w.len()
    &&& forall|k: int| 0 <= k < w.len() ==> span_converted(#[trigger] w[k].0, w[k].1, out[k])
}

/// Maps a wire span kind; unknown numbers give `Unspecified`.
pub fn convert_span_kind(kind: i32) -> (r: SpanKind)
    ensures
        r == span_kind_of(kind),
{
    match kind {
        1 => SpanKind::Internal,
        2 => SpanKind::Server,
        3 => SpanKind::Client,
        4 => SpanKind::Producer,
        5 => SpanKind::Consumer,
        _ => SpanKind::Unspecified,
    }
}

/// Maps a wire status; unknown codes give `Unset`, an empty message none.
pub fn convert_status(status: &otlp::Status) -> (r: Status)
    ensures
        r.code == status_code_of(status.code),
        opt_view(r.message) == message_of(status.message@),
{
    let code = match status.code {
        1 => StatusCode::Success,
        2 => StatusCode::Error,
        _ => StatusCode::Unset,
    };
    let message = if status.message.as_str().unicode_len() == 0 {
        None
    } else {
        Some(status.message.clone())
    };
    Status { code, message }
}

/// Converts one wire span under the service name of its resource.
pub fn convert_span(span: &otlp::Span, service_name: Option<String>) -> (r: Span)
    ensures
        span_converted(*span, opt_view(service_name), r),
{
    let span_id = bytes_to_hex(span.span_id.as_slice());
    let trace_id = bytes_to_hex(span.trace_id.as_slice());
    let parent_span_id = if span.parent_span_id.len() == 0 {
        None
    } else {
        Some(bytes_to_hex(span.parent_span_id.as_slice()))
    };
    let attributes = convert_attributes(&span.attributes);
    let kind = convert_span_kind(span.kind);
    let status = match &span.status {
        Some(st) => convert_status(st),
        None => Status::unset(),
    };
    Span::new(
        span_id,
        trace_id,
        parent_span_id,
        span.name.clone(),
        kind,
        span.start_time_unix_nano as i64,
        span.end_time_unix_nano as i64,
        attributes,
        status,
        service_name,
    )
}

/// Converts every span of every scope of every resource, in wire order;
/// each span carries the `service.name` of its resource.
pub fn convert_resource_spans(resource_spans: &Vec<otlp::ResourceSpans>) -> (r: Vec<Span>)
    ensures
        spans_converted(resource_spans_flat(resource_spans@), r@),
{
    let mut out: Vec<Span> = Vec::new();
    let mut a: usize = 0;
    while a < resource_spans.len()
        invariant
            a <= resource_spans@.len(),
            spans_converted(resource_spans_flat(resource_spans@.subrange(0, a as int)), out@),
        decreases resource_spans@.len() - a,
    {
        let rs = &resource_spans[a];
        let service_name = service_of(&rs.resource);
        let ghost svc = opt_view(service_name);
        let ghost done = resource_spans_flat(resource_spans@.subrange(0, a as int));
        let mut b: usize = 0;
        while b < rs.scope_spans.len()
            invariant
                b <= rs.scope_spans@.len(),
                svc == opt_view(service_name),
                spans_converted(
                    done + with_service(scope_spans_flat(rs.scope_spans@.subrange(0, b as int)), svc),
                    out@,
                ),
            decreases rs.scope_spans@.len() - b,
        {
            let spans = &rs.scope_spans[b].spans;
            let ghost before = scope_spans_flat(rs.scope_spans@.subrange(0, b as int));
            let mut c: usize = 0;
            while c < spans.len()
                invariant
                    c <= spans@.len(),
                    svc == opt_view(service_name),
                    spans_converted(done + with_service(before + spans@.subrange(0, c as int), svc), out@),
                decreases spans@.len() - c,
            {
                let converted = convert_span(&spans[c], copy_opt(&service_name));
                let ghost target = done + with_service(before + spans@.subrange(0, c as int), svc);
                out.push(converted);
                assert(done + with_service(before + spans@.subrange(0, c + 1), svc) =~= target.push(
                    (spans@[c as int], svc),
                ));
                c = c + 1;
            }
            assert(spans@.subrange(0, spans@.len() as int) =~= spans@);
            assert(rs.scope_spans@.subrange(0, b + 1).drop_last() =~= rs.scope_spans@.subrange(0, b as int));
            b = b + 1;
        }
        assert(rs.scope_spans@.subrange(0, rs.scope_spans@.len() as int) =~= rs.scope_spans@);
        assert(resource_spans@.subrange(0, a + 1).drop_last() =~= resource_spans@.subrange(0, a as int));
        a = a + 1;
    }
    assert(resource_spans@.subrange(0, resource_spans@.len() as int) =~= resource_spans@);
    out
}

/// A converted span's parent id is the lowercase hexadecimal of the wire
/// parent id when that is not empty, and absent when it is.
pub proof fn lemma_parent_id_encoding(w: otlp::Span, svc: Option<Seq<char>>, s: Span)
    requires
        span_converted(w, svc, s),
    ensures
        w.parent_span_id@.len() > 0 ==> opt_view(s.parent_span_id) == Some(hex_of(w.parent_span_id@)),
        w.parent_span_id@.len() == 0 ==> s.parent_span_id is None,
{
}

/// Wire enum numbers outside the known range map to the neutral member.
pub proof fn lemma_unknown_codes_are_neutral(k: i32)
    ensures
        !(1 <= k <= 5) ==> span_kind_of(k) == SpanKind::Unspecified,
        !(1 <= k <= 2) ==> status_code_of(k) == StatusCode::Unset,
{
}

/// Two spans that are both the conversion of one wire span are equal in
/// every field's content.
pub open spec fn same_span(a: Span, b: Span) -> bool {
    &&& a.span_id@ == b.span_id@
    &&& a.trace_id@ == b.trace_id@
    &&& opt_view(a.parent_span_id) == opt_view(b.parent_span_id)
    &&& a.name@ == b.name@
    &&& a.kind == b.kind
    &&& a.start_time_unix_nano == b.start_time_unix_nano
    &&& a.end_time_unix_nano == b.end_time_unix_nano
    &&& a.attributes@ == b.attributes@
    &&& a.status.code == b.status.code
    &&& opt_view(a.status.message) == opt_view(b.status.message)
    &&& opt_view(a.service_name) == opt_view(b.service_name)
}

/// Converting the same trace export twice gives the same spans, position
/// for position.
pub proof fn lemma_span_conversion_deterministic(
    rs: Seq<otlp::ResourceSpans>,
    a: Seq<Span>,
    b: Seq<Span>,
)
    requires
        spans_converted(resource_spans_flat(rs), a),
        spans_converted(resource_spans_flat(rs), b),
    ensures
        a.len() == b.len(),
        forall|k: int| 0 <= k < a.len() ==> same_span(#[trigger] a[k], b[k]),
{
    let w = resource_spans_flat(rs);
    assert forall|k: int| 0 <= k < a.len() implies same_span(#[trigger] a[k], b[k]) by {
        assert(span_converted(w[k].0, w[k].1, a[k]));
        assert(span_converted(w[k].0, w[k].1, b[k]));
    }
}

} // verus!
