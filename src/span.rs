//! Spans and their status.
use vstd::prelude::*;
use crate::attributes::Attributes;

verus! {

/// The role of a span in a trace.
#[derive(Debug, Clone, Copy, PartialEq, Eq, Structural)]
pub enum SpanKind {
    Unspecified,
    Internal,
    Server,
    Client,
    Producer,
    Consumer,
}

impl Default for SpanKind {
    fn default() -> (r: Self)
        ensures
            r == SpanKind::Unspecified,
    {
        SpanKind::Unspecified
    }
}

/// The outcome recorded on a span.
#[derive(Debug, Clone, Copy, PartialEq, Eq, Structural)]
pub enum StatusCode {
    Unset,
    Success,
    Error,
}

impl Default for StatusCode {
    fn default() -> (r: Self)
        ensures
            r == StatusCode::Unset,
    {
        StatusCode::Unset
    }
}

/// A status code with an optional message.
#[derive(Debug, Clone, PartialEq, Eq)]
pub struct Status {
    pub code: StatusCode,
    pub message: Option<String>,
}

/// The characters of an optional string.
pub open spec fn opt_view(o: Option<String>) -> Option<Seq<char>> {
    match o {
        Some(s) => Some(s@),
        None => None,
    }
}

/// A copy of an optional string.
pub fn copy_opt(o: &Option<String>) -> (r: Option<String>)
    ensures
        r == *o,
{
    match o {
        Some(s) => Some(s.clone()),
        None => None,
    }
}

impl Status {
    pub fn ok() -> (r: Self)
        ensures
            r.code == StatusCode::Success,
            r.message is None,
    {
        Status { code: StatusCode::Success, message: None }
    }

    pub fn error(message: &str) -> (r: Self)
        ensures
            r.code == StatusCode::Error,
            opt_view(r.message) == Some(message@),
    {
        Status { code: StatusCode::Error, message: Some(crate::text::owned(message)) }
    }

    pub fn unset() -> (r: Self)
        ensures
            r.code == StatusCode::Unset,
            r.message is None,
    {
        Status { code: StatusCode::Unset, message: None }
    }
}

impl Default for Status {
    fn default() -> (r: Self)
        ensures
            r.code == StatusCode::Unset,
            r.message is None,
    {
        Status::unset()
    }
}

/// A single timed operation within a trace. Identifiers are lowercase
/// hexadecimal; times are nanoseconds since the Unix epoch.
#[derive(Debug, Clone, PartialEq)]
pub struct Span {
    pub span_id: String,
    pub trace_id: String,
    pub parent_span_id: Option<String>,
    pub name: String,
    pub kind: SpanKind,
    pub start_time_unix_nano: i64,
    pub end_time_unix_nano: i64,
    pub attributes: Attributes,
    pub status: Status,
    pub service_name: Option<String>,
}

impl Span {
    pub open spec fn spec_duration(&self) -> int {
        self.end_time_unix_nano - self.start_time_unix_nano
    }

    pub open spec fn spec_is_root(&self) -> bool {
        self.parent_span_id is None
    }

    pub open spec fn spec_is_error(&self) -> bool {
        self.status.code == StatusCode::Error
    }

    #[allow(clippy::too_many_arguments)]
    pub fn new(
        span_id: String,
        trace_id: String,
        parent_span_id: Option<String>,
        name: String,
        kind: SpanKind,
        start_time_unix_nano: i64,
        end_time_unix_nano: i64,
        attributes: Attributes,
        status: Status,
        service_name: Option<String>,
    ) -> (r: Self)
        ensures
            r.span_id == span_id,
            r.trace_id == trace_id,
            r.parent_span_id == parent_span_id,
            r.name == name,
            r.kind == kind,
            r.start_time_unix_nano == start_time_unix_nano,
            r.end_time_unix_nano == end_time_unix_nano,
            r.attributes == attributes,
            r.status == status,
            r.service_name == service_name,
    {
        Span {
            span_id,
            trace_id,
            parent_span_id,
            name,
            kind,
            start_time_unix_nano,
            end_time_unix_nano,
            attributes,
            status,
            service_name,
        }
    }

    /// End time minus start time, in nanoseconds.
    pub fn duration_nanos(&self) -> (r: i64)
        requires
            i64::MIN <= self.spec_duration() <= i64::MAX,
        ensures
            r == self.spec_duration(),
    {
        self.end_time_unix_nano - self.start_time_unix_nano
    }

    /// Whether the span has no parent.
    pub fn is_root(&self) -> (r: bool)
        ensures
            r == self.spec_is_root(),
    {
        self.parent_span_id.is_none()
    }

    /// Whether the span's status is an error.
    pub fn is_error(&self) -> (r: bool)
        ensures
            r == self.spec_is_error(),
    {
        match self.status.code {
            StatusCode::Error => true,
            _ => false,
        }
    }
}

} // verus!
