//! What an export request answers, given the outcome of each insertion:
//! failures are counted and described, and never stop the batch.
use vstd::prelude::*;
use crate::log::Log;
use crate::metric::Metric;
use crate::span::Span;
use crate::storage::{StorageError, error_text};
use crate::text::{join, join_strings, owned};

verus! {

/// The rejections of an export: how many units were refused and why.
#[derive(Debug, Clone, PartialEq, Eq)]
pub struct PartialSuccess {
    pub rejected: i64,
    pub error_message: String,
}

/// The description of one span that could not be stored.
pub open spec fn span_failure(s: Span, e: StorageError) -> Seq<char> {
    "span "@ + s.span_id@ + ": "@ + error_text(e)
}

/// The description of one log record that could not be stored.
pub open spec fn log_failure(l: Log, e: StorageError) -> Seq<char> {
    "span "@ + match l.span_id {
        Some(id) => id@,
        None => "none"@,
    } + ": "@ + error_text(e)
}

/// The description of one metric that could not be stored.
pub open spec fn metric_failure(e: StorageError) -> Seq<char> {
    "Error inserting metric: "@ + error_text(e)
}

/// The descriptions of the first `n` spans whose insertion failed.
pub open spec fn span_failures(spans: Seq<Span>, results: Seq<Option<StorageError>>, n: int) -> Seq<Seq<char>>
    decreases n,
{
    if n <= 0 {
        Seq::empty()
    } else {
        let rest = span_failures(spans, results, n - 1);
        match results[n - 1] {
            Some(e) => rest.push(span_failure(spans[n - 1], e)),
            None => rest,
        }
    }
}

/// The descriptions of the first `n` log records whose insertion failed.
pub open spec fn log_failures(logs: Seq<Log>, results: Seq<Option<StorageError>>, n: int) -> Seq<Seq<char>>
    decreases n,
{
    if n <= 0 {
        Seq::empty()
    } else {
        let rest = log_failures(logs, results, n - 1);
        match results[n - 1] {
            Some(e) => rest.push(log_failure(logs[n - 1], e)),
            None => rest,
        }
    }
}

/// The descriptions of the metrics, among the first `n`, whose insertion failed.
pub open spec fn metric_failures(results: Seq<Option<StorageError>>, n: int) -> Seq<Seq<char>>
    decreases n,
{
    if n <= 0 {
        Seq::empty()
    } else {
        let rest = metric_failures(results, n - 1);
        match results[n - 1] {
            Some(e) => rest.push(metric_failure(e)),
            None => rest,
        }
    }
}

/// The data points of the metrics, among the first `n`, whose insertion failed.
pub open spec fn rejected_points(metrics: Seq<Metric>, results: Seq<Option<StorageError>>, n: int) -> int
    decreases n,
{
    if n <= 0 {
        0
    } else {
        rejected_points(metrics, results, n - 1) + match results[n - 1] {
            Some(_) => metrics[n - 1].data_points@.len() as int,
            None => 0,
        }
    }
}

/// All data points of the first `n` metrics.
pub open spec fn total_points(metrics: Seq<Metric>, n: int) -> int
    decreases n,
{
    if n <= 0 {
        0
    } else {
        total_points(metrics, n - 1) + metrics[n - 1].data_points@.len()
    }
}

/// The answer to an export whose failures are described by `failures` and
/// count `rejected` units: none when nothing was rejected.
pub open spec fn answer(rejected: int, failures: Seq<Seq<char>>, r: Option<PartialSuccess>) -> bool {
    if rejected == 0 {
        r is None
    } else {
        r matches Some(p) && p.rejected == rejected && p.error_message@ == join(failures, "; "@)
    }
}

proof fn lemma_failures_len(spans: Seq<Span>, results: Seq<Option<StorageError>>, n: int)
    requires
        0 <= n,
    ensures
        span_failures(spans, results, n).len() <= n,
    decreases n,
{
    if n > 0 {
        lemma_failures_len(spans, results, n - 1);
    }
}

proof fn lemma_log_failures_len(logs: Seq<Log>, results: Seq<Option<StorageError>>, n: int)
    requires
        0 <= n,
    ensures
        log_failures(logs, results, n).len() <= n,
    decreases n,
{
    if n > 0 {
        lemma_log_failures_len(logs, results, n - 1);
    }
}

proof fn lemma_rejected_le_total(metrics: Seq<Metric>, results: Seq<Option<StorageError>>, n: int)
    requires
        0 <= n,
    ensures
        0 <= rejected_points(metrics, results, n) <= total_points(metrics, n),
        0 <= total_points(metrics, n),
    decreases n,
{
    if n > 0 {
        lemma_rejected_le_total(metrics, results, n - 1);
    }
}

proof fn lemma_total_points_grow(metrics: Seq<Metric>, n: int, m: int)
    requires
        0 <= n <= m,
    ensures
        total_points(metrics, n) <= total_points(metrics, m),
    decreases m - n,
{
    if n < m {
        lemma_total_points_grow(metrics, n, m - 1);
    }
}

/// The answer to a trace export: each span whose insertion failed counts
/// once and is described as `span <id>: <error>`, joined with `; `.
pub fn span_export_outcome(spans: &Vec<Span>, results: &Vec<Option<StorageError>>) -> (r: Option<PartialSuccess>)
    requires
        spans@.len() == results@.len(),
        spans@.len() <= i64::MAX,
    ensures
        answer(
            span_failures(spans@, results@, spans@.len() as int).len() as int,
            span_failures(spans@, results@, spans@.len() as int),
            r,
        ),
{
    let mut messages: Vec<String> = Vec::new();
    let mut i: usize = 0;
    while i < spans.len()
        invariant
            spans@.len() == results@.len(),
            spans@.len() <= i64::MAX,
            i <= spans@.len(),
            messages@.map_values(|m: String| m@) == span_failures(spans@, results@, i as int),
        decreases spans@.len() - i,
    {
        match &results[i] {
            Some(e) => {
                let mut m = owned("span ");
                m.append(spans[i].span_id.as_str());
                m.append(": ");
                let text = e.message();
                m.append(text.as_str());
                let ghost before = messages@;
                messages.push(m);
                assert(messages@.map_values(|m: String| m@) =~= before.map_values(|m: String| m@).push(
                    span_failure(spans@[i as int], *e),
                ));
            },
            None => {},
        }
        i = i + 1;
    }
    proof {
        lemma_failures_len(spans@, results@, spans@.len() as int);
    }
    let rejected = messages.len() as i64;
    if rejected == 0 {
        None
    } else {
        Some(PartialSuccess { rejected, error_message: join_strings(&messages, "; ") })
    }
}

/// The answer to a log export: each record whose insertion failed counts
/// once and is described by its span id and the error, joined with `; `.
pub fn log_export_outcome(logs: &Vec<Log>, results: &Vec<Option<StorageError>>) -> (r: Option<PartialSuccess>)
    requires
        logs@.len() == results@.len(),
        logs@.len() <= i64::MAX,
    ensures
        answer(
            log_failures(logs@, results@, logs@.len() as int).len() as int,
            log_failures(logs@, results@, logs@.len() as int),
            r,
        ),
{
    let mut messages: Vec<String> = Vec::new();
    let mut i: usize = 0;
    while i < logs.len()
        invariant
            logs@.len() == results@.len(),
            logs@.len() <= i64::MAX,
            i <= logs@.len(),
            messages@.map_values(|m: String| m@) == log_failures(logs@, results@, i as int),
        decreases logs@.len() - i,
    {
        match &results[i] {
            Some(e) => {
                let mut m = owned("span ");
                match &logs[i].span_id {
                    Some(id) => m.append(id.as_str()),
                    None => m.append("none"),
                }
                m.append(": ");
                let text = e.message();
                m.append(text.as_str());
                let ghost before = messages@;
                messages.push(m);
                assert(messages@.map_values(|m: String| m@) =~= before.map_values(|m: String| m@).push(
                    log_failure(logs@[i as int], *e),
                ));
            },
            None => {},
        }
        i = i + 1;
    }
    proof {
        lemma_log_failures_len(logs@, results@, logs@.len() as int);
    }
    let rejected = messages.len() as i64;
    if rejected == 0 {
        None
    } else {
        Some(PartialSuccess { rejected, error_message: join_strings(&messages, "; ") })
    }
}

/// The answer to a metric export: a failed metric rejects all of its data
/// points; the first five failures are described, joined with `; `.
pub fn metric_export_outcome(metrics: &Vec<Metric>, results: &Vec<Option<StorageError>>) -> (r: Option<PartialSuccess>)
    requires
        metrics@.len() == results@.len(),
        total_points(metrics@, metrics@.len() as int) <= i64::MAX,
    ensures
        ({
            let f = metric_failures(results@, metrics@.len() as int);
            answer(
                rejected_points(metrics@, results@, metrics@.len() as int),
                if f.len() <= 5 { f } else { f.take(5) },
                r,
            )
        }),
{
    let mut messages: Vec<String> = Vec::new();
    let mut rejected: i64 = 0;
    let ghost n = metrics@.len() as int;
    let mut i: usize = 0;
    while i < metrics.len()
        invariant
            metrics@.len() == results@.len(),
            n == metrics@.len(),
            total_points(metrics@, n) <= i64::MAX,
            i <= metrics@.len(),
            rejected == rejected_points(metrics@, results@, i as int),
            ({
                let f = metric_failures(results@, i as int);
                messages@.map_values(|m: String| m@) == if f.len() <= 5 { f } else { f.take(5) }
            }),
        decreases metrics@.len() - i,
    {
        proof {
            lemma_rejected_le_total(metrics@, results@, i + 1);
            lemma_total_points_grow(metrics@, i + 1, n);
        }
        match &results[i] {
            Some(e) => {
                let points = metrics[i].data_points.len();
                assert(rejected_points(metrics@, results@, i + 1) == rejected + points);
                assert(rejected_points(metrics@, results@, i + 1) <= total_points(metrics@, i + 1));
                assert(total_points(metrics@, i + 1) <= total_points(metrics@, n));
                proof {
                    lemma_rejected_le_total(metrics@, results@, i as int);
                }
                assert(points <= i64::MAX);
                rejected = rejected + points as i64;
                let ghost f = metric_failures(results@, i as int);
                if messages.len() < 5 {
                    let mut m = owned("Error inserting metric: ");
                    let text = e.message();
                    m.append(text.as_str());
                    let ghost before = messages@;
                    messages.push(m);
                    assert(messages@.map_values(|m: String| m@) =~= before.map_values(|m: String| m@).push(
                        metric_failure(*e),
                    ));
                    proof {
                        let g = metric_failures(results@, i + 1);
                        if g.len() > 5 {
                            assert(g.take(5) =~= g);
                        }
                    }
                } else {
                    proof {
                        let g = metric_failures(results@, i + 1);
                        assert(g.take(5) =~= f.take(5));
                    }
                }
            },
            None => {},
        }
        i = i + 1;
    }
    if rejected == 0 {
        None
    } else {
        Some(PartialSuccess { rejected, error_message: join_strings(&messages, "; ") })
    }
}

/// The number of data points of all metrics, when it fits in an `i64`.
pub fn total_points_of(metrics: &Vec<Metric>) -> (r: Option<i64>)
    ensures
        total_points(metrics@, metrics@.len() as int) <= i64::MAX <==> r is Some,
        r matches Some(t) ==> t == total_points(metrics@, metrics@.len() as int),
{
    let mut total: i64 = 0;
    let mut i: usize = 0;
    while i < metrics.len()
        invariant
            i <= metrics@.len(),
            total == total_points(metrics@, i as int),
            0 <= total,
        decreases metrics@.len() - i,
    {
        let points = metrics[i].data_points.len();
        if points as u64 > (i64::MAX - total) as u64 {
            proof {
                lemma_total_points_grow(metrics@, i + 1, metrics@.len() as int);
            }
            return None;
        }
        total = total + points as i64;
        i = i + 1;
    }
    Some(total)
}

/// The HTTP status and body of a trace export over HTTP: 200 with no body
/// when nothing was rejected, else 500 with the joined descriptions.
pub fn http_export_reply(outcome: &Option<PartialSuccess>) -> (r: (u16, String))
    ensures
        outcome is None ==> r.0 == 200 && r.1@.len() == 0,
        outcome matches Some(p) ==> r.0 == 500 && r.1@ == p.error_message@,
{
    match outcome {
        None => (200, String::new()),
        Some(p) => (500, p.error_message.clone()),
    }
}

} // verus!
