//! The shaping of stored telemetry for the query API: limits, duration
//! filters, pagination and the list of services.
use vstd::prelude::*;
use crate::span::{copy_opt, opt_view};
use crate::text::{lemma_lex_total, lemma_lex_transitive, lex_lt, same_text, text_less};
use crate::trace::{Trace, min_start, trace_duration};

verus! {

/// The most traces or logs one request may ask for.
pub const MAX_LIMIT: usize = 1000;

/// The number of traces or logs a request gets when it names none.
pub const DEFAULT_LIMIT: usize = 100;

/// The limit of a request: the default when absent, never above the maximum.
pub fn api_limit(limit: Option<usize>) -> (r: usize)
    ensures
        r == match limit {
            Some(l) => if l < 1000 { l } else { 1000 },
            None => 100,
        },
{
    let l = match limit {
        Some(l) => l,
        None => DEFAULT_LIMIT,
    };
    if l < MAX_LIMIT { l } else { MAX_LIMIT }
}

/// Query parameters of a log listing.
#[derive(Debug, Clone, PartialEq, Eq)]
pub struct ListLogsQuery {
    pub service: Option<String>,
    pub level: Option<String>,
    pub limit: Option<usize>,
}

impl ListLogsQuery {
    /// The number of logs the request gets.
    pub fn effective_limit(&self) -> (r: usize)
        ensures
            r == match self.limit {
                Some(l) => if l < 1000 { l } else { 1000 },
                None => 100,
            },
    {
        api_limit(self.limit)
    }
}

/// A summary of one trace for list views; durations are in nanoseconds.
#[derive(Debug, Clone, PartialEq, Eq)]
pub struct TraceInfo {
    pub trace_id: String,
    pub service_name: Option<String>,
    pub duration_nanos: i128,
    pub span_count: usize,
    pub has_errors: bool,
    pub start_time: Option<i64>,
}

/// A page of trace summaries and its length.
#[derive(Debug, Clone, PartialEq, Eq)]
pub struct TraceListResponse {
    pub traces: Vec<TraceInfo>,
    pub total: usize,
}

/// `i` summarises trace `t`.
pub open spec fn summarises(t: Trace, i: TraceInfo) -> bool {
    &&& i.trace_id@ == t.trace_id@
    &&& opt_view(i.service_name) == opt_view(t.service_name)
    &&& i.duration_nanos == trace_duration(t.spans@)
    &&& i.span_count == t.spans@.len()
    &&& i.has_errors == exists|k: int| 0 <= k < t.spans@.len() && t.spans@[k].spec_is_error()
    &&& i.start_time == if t.spans@.len() == 0 {
        None
    } else {
        Some(min_start(t.spans@) as i64)
    }
}

impl TraceInfo {
    /// Summarises a trace.
    pub fn from_trace(trace: &Trace) -> (r: TraceInfo)
        ensures
            summarises(*trace, r),
    {
        let start_time = match trace.start_end() {
            Some((lo, _)) => Some(lo),
            None => None,
        };
        TraceInfo {
            trace_id: trace.trace_id.clone(),
            service_name: copy_opt(&trace.service_name),
            duration_nanos: trace.duration_nanos_wide(),
            span_count: trace.span_count(),
            has_errors: trace.has_errors(),
            start_time,
        }
    }
}

/// Whether a trace's duration lies within the bounds (inclusive).
pub open spec fn within(t: Trace, min_nanos: Option<i128>, max_nanos: Option<i128>) -> bool {
    &&& (min_nanos matches Some(lo) ==> trace_duration(t.spans@) >= lo)
    &&& (max_nanos matches Some(hi) ==> trace_duration(t.spans@) <= hi)
}

/// The number of traces left after skipping `offset` of `n`.
pub open spec fn after_offset(n: int, offset: int) -> int {
    if n <= offset { 0 } else { n - offset }
}

/// Filters traces by duration, skips `offset` of those that pass, and
/// summarises the rest; `total` is the number summarised.
pub fn list_trace_infos(
    traces: &Vec<Trace>,
    min_nanos: Option<i128>,
    max_nanos: Option<i128>,
    offset: Option<usize>,
) -> (r: TraceListResponse)
    ensures
        ({
            let kept = traces@.filter(|t: Trace| within(t, min_nanos, max_nanos));
            let off: int = match offset {
                Some(o) => o as int,
                None => 0,
            };
            &&& r.traces@.len() == after_offset(kept.len() as int, off)
            &&& r.total == r.traces@.len()
            &&& forall|k: int| 0 <= k < r.traces@.len() ==> summarises(kept[off + k], #[trigger] r.traces@[k])
        }),
{
    let ghost keep = |t: Trace| within(t, min_nanos, max_nanos);
    let off: usize = match offset {
        Some(o) => o,
        None => 0,
    };
    let mut out: Vec<TraceInfo> = Vec::new();
    let mut passed: usize = 0;
    let mut i: usize = 0;
    while i < traces.len()
        invariant
            i <= traces@.len(),
            keep == (|t: Trace| within(t, min_nanos, max_nanos)),
            passed == traces@.subrange(0, i as int).filter(keep).len(),
            passed <= i,
            out@.len() == after_offset(passed as int, off as int),
            forall|k: int| 0 <= k < out@.len() ==> summarises(
                traces@.subrange(0, i as int).filter(keep)[off + k],
                #[trigger] out@[k],
            ),
        decreases traces@.len() - i,
    {
        proof {
            reveal(Seq::filter);
        }
        let ghost prev = traces@.subrange(0, i as int).filter(keep);
        assert(traces@.subrange(0, i + 1).drop_last() =~= traces@.subrange(0, i as int));
        let t = &traces[i];
        let d = t.duration_nanos_wide();
        let ok_min = match min_nanos {
            Some(lo) => d >= lo,
            None => true,
        };
        let ok_max = match max_nanos {
            Some(hi) => d <= hi,
            None => true,
        };
        assert(traces@.subrange(0, i + 1).last() == traces@[i as int]);
        if ok_min && ok_max {
            assert(keep(traces@[i as int]));
            assert(traces@.subrange(0, i + 1).filter(keep) == prev.push(traces@[i as int]));
            if passed >= off {
                let info = TraceInfo::from_trace(t);
                let ghost before = out@;
                out.push(info);
                assert forall|k: int| 0 <= k < out@.len() implies summarises(
                    prev.push(traces@[i as int])[off + k],
                    #[trigger] out@[k],
                ) by {
                    if k < before.len() {
                        assert(out@[k] == before[k]);
                    }
                }
            }
            passed = passed + 1;
        } else {
            assert(!keep(traces@[i as int]));
            assert(traces@.subrange(0, i + 1).filter(keep) == prev);
        }
        i = i + 1;
    }
    assert(traces@.subrange(0, traces@.len() as int) =~= traces@);
    let total = out.len();
    TraceListResponse { traces: out, total }
}

/// Some trace has this service name.
pub open spec fn names_service(traces: Seq<Trace>, n: Seq<char>) -> bool {
    exists|j: int| 0 <= j < traces.len() && opt_view(traces[j].service_name) == Some(n)
}

/// The names are in strictly ascending code-point order.
pub open spec fn ascending(names: Seq<String>) -> bool {
    forall|a: int, b: int| 0 <= a < b < names.len() ==> lex_lt(#[trigger] names[a]@, #[trigger] names[b]@)
}

/// Some entry holds this name.
pub open spec fn listed(names: Seq<String>, n: Seq<char>) -> bool {
    exists|k: int| 0 <= k < names.len() && names[k]@ == n
}

/// The service names of the traces, sorted and without duplicates.
pub fn service_names(traces: &Vec<Trace>) -> (r: Vec<String>)
    ensures
        forall|i: int| #![trigger traces@[i]]
            0 <= i < traces@.len() ==> match traces@[i].service_name {
                Some(n) => listed(r@, n@),
                None => true,
            },
        forall|k: int| 0 <= k < r@.len() ==> names_service(traces@, #[trigger] r@[k]@),
        ascending(r@),
{
    let mut out: Vec<String> = Vec::new();
    let mut i: usize = 0;
    while i < traces.len()
        invariant
            i <= traces@.len(),
            forall|t: int| #![trigger traces@[t]]
                0 <= t < i ==> match traces@[t].service_name {
                    Some(n) => listed(out@, n@),
                    None => true,
                },
            forall|k: int| 0 <= k < out@.len() ==> names_service(traces@, #[trigger] out@[k]@),
            ascending(out@),
        decreases traces@.len() - i,
    {
        let ghost before = out@;
        match &traces[i].service_name {
            Some(name) => {
                assert(opt_view(traces@[i as int].service_name) == Some(name@));
                let mut j: usize = 0;
                while j < out.len() && text_less(out[j].as_str(), name.as_str())
                    invariant
                        out@ == before,
                        j <= out@.len(),
                        forall|k: int| 0 <= k < j ==> lex_lt(#[trigger] out@[k]@, name@),
                    decreases out@.len() - j,
                {
                    j = j + 1;
                }
                let present = j < out.len() && same_text(out[j].as_str(), name.as_str());
                if !present {
                    proof {
                        if j < before.len() {
                            lemma_lex_total(before[j as int]@, name@);
                            assert(lex_lt(name@, before[j as int]@));
                            assert forall|k: int| j <= k < before.len() implies lex_lt(name@, #[trigger] before[k]@) by {
                                if k > j {
                                    lemma_lex_transitive(name@, before[j as int]@, before[k]@);
                                }
                            }
                        }
                    }
                    out.insert(j, name.clone());
                    assert(out@[j as int]@ == name@);
                    assert forall|a: int, b: int| 0 <= a < b < out@.len() implies lex_lt(
                        #[trigger] out@[a]@,
                        #[trigger] out@[b]@,
                    ) by {
                        if b < j {
                            assert(out@[a] == before[a] && out@[b] == before[b]);
                        } else if b == j {
                            assert(out@[a] == before[a]);
                        } else if a < j {
                            assert(out@[a] == before[a] && out@[b] == before[b - 1]);
                            assert(lex_lt(name@, before[b - 1]@));
                            lemma_lex_transitive(before[a]@, name@, before[b - 1]@);
                        } else if a == j {
                            assert(out@[b] == before[b - 1]);
                        } else {
                            assert(out@[a] == before[a - 1] && out@[b] == before[b - 1]);
                        }
                    }
                    assert forall|k: int| 0 <= k < out@.len() implies names_service(
                        traces@,
                        #[trigger] out@[k]@,
                    ) by {
                        if k < j {
                            assert(out@[k] == before[k]);
                        } else if k > j {
                            assert(out@[k] == before[k - 1]);
                        } else {
                            assert(opt_view(traces@[i as int].service_name) == Some(out@[k]@));
                        }
                    }
                }
                assert forall|t: int| #![trigger traces@[t]]
                    0 <= t < i + 1 implies match traces@[t].service_name {
                        Some(n) => listed(out@, n@),
                        None => true,
                    } by {
                    if t < i {
                        if let Some(n) = traces@[t].service_name {
                            let k = choose|k: int| 0 <= k < before.len() && before[k]@ == n@;
                            if present {
                                assert(out@[k]@ == n@);
                            } else if k < j {
                                assert(out@[k] == before[k]);
                            } else {
                                assert(out@[k + 1] == before[k]);
                            }
                        }
                    } else {
                        assert(out@[j as int]@ == name@);
                    }
                }
            },
            None => {},
        }
        i = i + 1;
    }
    out
}

} // verus!
