//! Log records and their severity.
use vstd::prelude::*;
use crate::attributes::Attributes;

verus! {

/// The severity of a log record, in the order of its wire number (0 to 24).
#[derive(Debug, Clone, Copy, PartialEq, Eq, PartialOrd, Ord, Hash, Structural)]
pub enum SeverityLevel {
    Unspecified,
    Trace,
    Trace2,
    Trace3,
    Trace4,
    Debug,
    Debug2,
    Debug3,
    Debug4,
    Info,
    Info2,
    Info3,
    Info4,
    Warn,
    Warn2,
    Warn3,
    Warn4,
    Error,
    Error2,
    Error3,
    Error4,
    Fatal,
    Fatal2,
    Fatal3,
    Fatal4,
}

impl Default for SeverityLevel {
    fn default() -> (r: Self)
        ensures
            r == SeverityLevel::Unspecified,
    {
        SeverityLevel::Unspecified
    }
}

/// The wire number of a severity level.
pub open spec fn severity_number(l: SeverityLevel) -> int {
    match l {
        SeverityLevel::Unspecified => 0,
        SeverityLevel::Trace => 1,
        SeverityLevel::Trace2 => 2,
        SeverityLevel::Trace3 => 3,
        SeverityLevel::Trace4 => 4,
        SeverityLevel::Debug => 5,
        SeverityLevel::Debug2 => 6,
        SeverityLevel::Debug3 => 7,
        SeverityLevel::Debug4 => 8,
        SeverityLevel::Info => 9,
        SeverityLevel::Info2 => 10,
        SeverityLevel::Info3 => 11,
        SeverityLevel::Info4 => 12,
        SeverityLevel::Warn => 13,
        SeverityLevel::Warn2 => 14,
        SeverityLevel::Warn3 => 15,
        SeverityLevel::Warn4 => 16,
        SeverityLevel::Error => 17,
        SeverityLevel::Error2 => 18,
        SeverityLevel::Error3 => 19,
        SeverityLevel::Error4 => 20,
        SeverityLevel::Fatal => 21,
        SeverityLevel::Fatal2 => 22,
        SeverityLevel::Fatal3 => 23,
        SeverityLevel::Fatal4 => 24,
    }
}

/// The display class of a severity level: four consecutive numbers share one.
pub open spec fn severity_class(l: SeverityLevel) -> Seq<char> {
    let n = severity_number(l);
    if n == 0 {
        "UNSPECIFIED"@
    } else if n <= 4 {
        "TRACE"@
    } else if n <= 8 {
        "DEBUG"@
    } else if n <= 12 {
        "INFO"@
    } else if n <= 16 {
        "WARN"@
    } else if n <= 20 {
        "ERROR"@
    } else {
        "FATAL"@
    }
}

impl SeverityLevel {
    /// The wire number of the level.
    pub fn number(&self) -> (r: u8)
        ensures
            r as int == severity_number(*self),
    {
        match self {
            SeverityLevel::Unspecified => 0,
            SeverityLevel::Trace => 1,
            SeverityLevel::Trace2 => 2,
            SeverityLevel::Trace3 => 3,
            SeverityLevel::Trace4 => 4,
            SeverityLevel::Debug => 5,
            SeverityLevel::Debug2 => 6,
            SeverityLevel::Debug3 => 7,
            SeverityLevel::Debug4 => 8,
            SeverityLevel::Info => 9,
            SeverityLevel::Info2 => 10,
            SeverityLevel::Info3 => 11,
            SeverityLevel::Info4 => 12,
            SeverityLevel::Warn => 13,
            SeverityLevel::Warn2 => 14,
            SeverityLevel::Warn3 => 15,
            SeverityLevel::Warn4 => 16,
            SeverityLevel::Error => 17,
            SeverityLevel::Error2 => 18,
            SeverityLevel::Error3 => 19,
            SeverityLevel::Error4 => 20,
            SeverityLevel::Fatal => 21,
            SeverityLevel::Fatal2 => 22,
            SeverityLevel::Fatal3 => 23,
            SeverityLevel::Fatal4 => 24,
        }
    }

    /// The level with a wire number; numbers outside 0 to 24 give
    /// `Unspecified`.
    pub fn from_number(n: i32) -> (r: SeverityLevel)
        ensures
            0 <= n <= 24 ==> severity_number(r) == n,
            !(0 <= n <= 24) ==> r == SeverityLevel::Unspecified,
    {
        match n {
        1 => SeverityLevel::Trace,
        2 => SeverityLevel::Trace2,
        3 => SeverityLevel::Trace3,
        4 => SeverityLevel::Trace4,
        5 => SeverityLevel::Debug,
        6 => SeverityLevel::Debug2,
        7 => SeverityLevel::Debug3,
        8 => SeverityLevel::Debug4,
        9 => SeverityLevel::Info,
        10 => SeverityLevel::Info2,
        11 => SeverityLevel::Info3,
        12 => SeverityLevel::Info4,
        13 => SeverityLevel::Warn,
        14 => SeverityLevel::Warn2,
        15 => SeverityLevel::Warn3,
        16 => SeverityLevel::Warn4,
        17 => SeverityLevel::Error,
        18 => SeverityLevel::Error2,
        19 => SeverityLevel::Error3,
        20 => SeverityLevel::Error4,
        21 => SeverityLevel::Fatal,
        22 => SeverityLevel::Fatal2,
        23 => SeverityLevel::Fatal3,
        24 => SeverityLevel::Fatal4,
        _ => SeverityLevel::Unspecified,
        }
    }

    /// The display class of the level.
    pub fn as_str(&self) -> (r: &'static str)
        ensures
            r@ == severity_class(*self),
    {
        match self {
            SeverityLevel::Unspecified => "UNSPECIFIED",
            SeverityLevel::Trace => "TRACE",
            SeverityLevel::Trace2 => "TRACE",
            SeverityLevel::Trace3 => "TRACE",
            SeverityLevel::Trace4 => "TRACE",
            SeverityLevel::Debug => "DEBUG",
            SeverityLevel::Debug2 => "DEBUG",
            SeverityLevel::Debug3 => "DEBUG",
            SeverityLevel::Debug4 => "DEBUG",
            SeverityLevel::Info => "INFO",
            SeverityLevel::Info2 => "INFO",
            SeverityLevel::Info3 => "INFO",
            SeverityLevel::Info4 => "INFO",
            SeverityLevel::Warn => "WARN",
            SeverityLevel::Warn2 => "WARN",
            SeverityLevel::Warn3 => "WARN",
            SeverityLevel::Warn4 => "WARN",
            SeverityLevel::Error => "ERROR",
            SeverityLevel::Error2 => "ERROR",
            SeverityLevel::Error3 => "ERROR",
            SeverityLevel::Error4 => "ERROR",
            SeverityLevel::Fatal => "FATAL",
            SeverityLevel::Fatal2 => "FATAL",
            SeverityLevel::Fatal3 => "FATAL",
            SeverityLevel::Fatal4 => "FATAL",
        }
    }
}

/// A log record. Identifiers are lowercase hexadecimal; the time is
/// nanoseconds since the Unix epoch.
#[derive(Debug, Clone, PartialEq)]
pub struct Log {
    pub time_unix_nano: i64,
    pub severity_level: SeverityLevel,
    pub severity_text: Option<String>,
    pub body: String,
    pub attributes: Attributes,
    pub trace_id: Option<String>,
    pub span_id: Option<String>,
    pub service_name: Option<String>,
}

impl Log {
    #[allow(clippy::too_many_arguments)]
    pub fn new(
        time_unix_nano: i64,
        severity_level: SeverityLevel,
        severity_text: Option<String>,
        body: String,
        attributes: Attributes,
        trace_id: Option<String>,
        span_id: Option<String>,
        service_name: Option<String>,
    ) -> (r: Self)
        ensures
            r.time_unix_nano == time_unix_nano,
            r.severity_level == severity_level,
            r.severity_text == severity_text,
            r.body == body,
            r.attributes == attributes,
            r.trace_id == trace_id,
            r.span_id == span_id,
            r.service_name == service_name,
    {
        Log {
            time_unix_nano,
            severity_level,
            severity_text,
            body,
            attributes,
            trace_id,
            span_id,
            service_name,
        }
    }

    /// Whether the record names both a trace and a span.
    pub fn is_correlated(&self) -> (r: bool)
        ensures
            r == (self.trace_id is Some && self.span_id is Some),
    {
        self.trace_id.is_some() && self.span_id.is_some()
    }

    /// Whether the severity is of the error or fatal classes.
    pub fn is_error(&self) -> (r: bool)
        ensures
            r == (severity_number(self.severity_level) >= 17),
    {
        self.severity_level.number() >= 17
    }
}

} // verus!
