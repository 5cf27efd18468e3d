//! Traces: the spans that share one trace id, with derived views.
use vstd::prelude::*;
use crate::span::{Span, StatusCode, copy_opt, opt_view};
use crate::text::same_text;

verus! {

/// Position `i` holds the first span without a parent.
pub open spec fn is_first_root(s: Seq<Span>, i: int) -> bool {
    &&& 0 <= i < s.len()
    &&& s[i].parent_span_id is None
    &&& forall|j: int| 0 <= j < i ==> s[j].parent_span_id is Some
}

pub open spec fn has_root(s: Seq<Span>) -> bool {
    exists|i: int| 0 <= i < s.len() && s[i].parent_span_id is None
}

/// The service of a trace: that of its first root span when it names one,
/// else that of its first span.
pub open spec fn trace_service(s: Seq<Span>) -> Option<Seq<char>> {
    let r = choose|i: int| is_first_root(s, i);
    if has_root(s) && s[r].service_name is Some {
        opt_view(s[r].service_name)
    } else if s.len() > 0 {
        opt_view(s[0].service_name)
    } else {
        None
    }
}

/// The earliest start time among the spans.
pub open spec fn min_start(s: Seq<Span>) -> int
    decreases s.len(),
{
    if s.len() <= 1 {
        if s.len() == 1 { s[0].start_time_unix_nano as int } else { 0 }
    } else {
        let m = min_start(s.drop_last());
        let x = s.last().start_time_unix_nano as int;
        if x < m { x } else { m }
    }
}

/// The latest end time among the spans.
pub open spec fn max_end(s: Seq<Span>) -> int
    decreases s.len(),
{
    if s.len() <= 1 {
        if s.len() == 1 { s[0].end_time_unix_nano as int } else { 0 }
    } else {
        let m = max_end(s.drop_last());
        let x = s.last().end_time_unix_nano as int;
        if x > m { x } else { m }
    }
}

/// Latest end minus earliest start; zero for no spans.
pub open spec fn trace_duration(s: Seq<Span>) -> int {
    if s.len() == 0 { 0 } else { max_end(s) - min_start(s) }
}

pub open spec fn is_child_of(x: Span, parent: Seq<char>) -> bool {
    x.parent_span_id matches Some(p) && p@ == parent
}

proof fn lemma_first_root_unique(s: Seq<Span>, i: int)
    requires
        is_first_root(s, i),
    ensures
        has_root(s),
        (choose|k: int| is_first_root(s, k)) == i,
{
    let k = choose|k: int| is_first_root(s, k);
    assert(is_first_root(s, k));
    if k < i {
        assert(s[k].parent_span_id is Some);
    } else if k > i {
        assert(s[i].parent_span_id is Some);
    }
}

/// The spans that share one trace id.
#[derive(Debug, Clone, PartialEq)]
pub struct Trace {
    pub trace_id: String,
    pub spans: Vec<Span>,
    pub service_name: Option<String>,
}

fn first_root_index(spans: &Vec<Span>) -> (r: Option<usize>)
    ensures
        match r {
            Some(i) => is_first_root(spans@, i as int),
            None => !has_root(spans@),
        },
{
    let mut i: usize = 0;
    while i < spans.len()
        invariant
            i <= spans@.len(),
            forall|j: int| 0 <= j < i ==> spans@[j].parent_span_id is Some,
        decreases spans@.len() - i,
    {
        if spans[i].is_root() {
            return Some(i);
        }
        i = i + 1;
    }
    None
}

impl Trace {
    /// Groups spans under a trace id; the service is taken from the first
    /// root span, else from the first span.
    pub fn new(trace_id: String, spans: Vec<Span>) -> (r: Self)
        ensures
            r.trace_id == trace_id,
            r.spans == spans,
            opt_view(r.service_name) == trace_service(spans@),
    {
        let root = first_root_index(&spans);
        let mut service_name: Option<String> = None;
        match root {
            Some(i) => {
                proof {
                    lemma_first_root_unique(spans@, i as int);
                }
                service_name = copy_opt(&spans[i].service_name);
            },
            None => {},
        }
        if service_name.is_none() && spans.len() > 0 {
            service_name = copy_opt(&spans[0].service_name);
        }
        Trace { trace_id, spans, service_name }
    }

    /// The first span without a parent.
    pub fn root_span(&self) -> (r: Option<&Span>)
        ensures
            match r {
                Some(x) => exists|i: int| is_first_root(self.spans@, i) && self.spans@[i] == *x,
                None => !has_root(self.spans@),
            },
    {
        match first_root_index(&self.spans) {
            Some(i) => Some(&self.spans[i]),
            None => None,
        }
    }

    /// Latest end time minus earliest start time over all spans; zero when
    /// there are none.
    pub fn duration_nanos(&self) -> (r: i64)
        requires
            i64::MIN <= trace_duration(self.spans@) <= i64::MAX,
        ensures
            r == trace_duration(self.spans@),
    {
        match self.start_end() {
            Some((lo, hi)) => hi - lo,
            None => 0,
        }
    }

    /// Latest end time minus earliest start time over all spans, computed
    /// without a bound on the span times; zero when there are none.
    pub fn duration_nanos_wide(&self) -> (r: i128)
        ensures
            r == trace_duration(self.spans@),
    {
        match self.start_end() {
            Some((lo, hi)) => hi as i128 - lo as i128,
            None => 0,
        }
    }

    /// The earliest start time and latest end time, when there are spans.
    pub fn start_end(&self) -> (r: Option<(i64, i64)>)
        ensures
            self.spans@.len() == 0 ==> r is None,
            self.spans@.len() > 0 ==> r == Some(
                (min_start(self.spans@) as i64, max_end(self.spans@) as i64),
            ),
            self.spans@.len() > 0 ==> i64::MIN <= min_start(self.spans@) <= i64::MAX,
            self.spans@.len() > 0 ==> i64::MIN <= max_end(self.spans@) <= i64::MAX,
    {
        let n = self.spans.len();
        if n == 0 {
            return None;
        }
        let mut lo: i64 = self.spans[0].start_time_unix_nano;
        let mut hi: i64 = self.spans[0].end_time_unix_nano;
        let mut i: usize = 1;
        while i < n
            invariant
                n == self.spans@.len(),
                1 <= i <= n,
                lo == min_start(self.spans@.subrange(0, i as int)),
                hi == max_end(self.spans@.subrange(0, i as int)),
            decreases n - i,
        {
            assert(self.spans@.subrange(0, i + 1).drop_last() =~= self.spans@.subrange(0, i as int));
            let x = &self.spans[i];
            if x.start_time_unix_nano < lo {
                lo = x.start_time_unix_nano;
            }
            if x.end_time_unix_nano > hi {
                hi = x.end_time_unix_nano;
            }
            i = i + 1;
        }
        assert(self.spans@.subrange(0, n as int) =~= self.spans@);
        Some((lo, hi))
    }

    /// The number of spans.
    pub fn span_count(&self) -> (r: usize)
        ensures
            r == self.spans@.len(),
    {
        self.spans.len()
    }

    /// Whether any span has an error status.
    pub fn has_errors(&self) -> (r: bool)
        ensures
            r == exists|i: int| 0 <= i < self.spans@.len() && self.spans@[i].spec_is_error(),
    {
        let mut i: usize = 0;
        while i < self.spans.len()
            invariant
                i <= self.spans@.len(),
                forall|j: int| 0 <= j < i ==> !self.spans@[j].spec_is_error(),
            decreases self.spans@.len() - i,
        {
            if self.spans[i].is_error() {
                return true;
            }
            i = i + 1;
        }
        false
    }

    /// The spans with an error status, in order.
    pub fn error_spans(&self) -> (r: Vec<&Span>)
        ensures
            r@.map_values(|x: &Span| *x) == self.spans@.filter(|x: Span| x.status.code == StatusCode::Error),
    {
        let ghost keep = |x: Span| x.status.code == StatusCode::Error;
        let mut out: Vec<&Span> = Vec::new();
        assert(out@.map_values(|x: &Span| *x) =~= Seq::<Span>::empty());
        let mut i: usize = 0;
        while i < self.spans.len()
            invariant
                i <= self.spans@.len(),
                keep == (|x: Span| x.status.code == StatusCode::Error),
                out@.map_values(|x: &Span| *x) == self.spans@.subrange(0, i as int).filter(keep),
            decreases self.spans@.len() - i,
        {
            proof {
                reveal(Seq::filter);
                assert(self.spans@.subrange(0, i + 1).drop_last() =~= self.spans@.subrange(0, i as int));
            }
            if self.spans[i].is_error() {
                let ghost before = out@;
                out.push(&self.spans[i]);
                assert(out@.map_values(|x: &Span| *x) =~= before.map_values(|x: &Span| *x).push(self.spans@[i as int]));
            }
            i = i + 1;
        }
        assert(self.spans@.subrange(0, self.spans@.len() as int) =~= self.spans@);
        out
    }

    /// The spans whose parent is the given span, in order.
    pub fn children_of(&self, parent_span_id: &str) -> (r: Vec<&Span>)
        ensures
            r@.map_values(|x: &Span| *x) == self.spans@.filter(|x: Span| is_child_of(x, parent_span_id@)),
    {
        let ghost keep = |x: Span| is_child_of(x, parent_span_id@);
        let mut out: Vec<&Span> = Vec::new();
        assert(out@.map_values(|x: &Span| *x) =~= Seq::<Span>::empty());
        let mut i: usize = 0;
        while i < self.spans.len()
            invariant
                i <= self.spans@.len(),
                keep == (|x: Span| is_child_of(x, parent_span_id@)),
                out@.map_values(|x: &Span| *x) == self.spans@.subrange(0, i as int).filter(keep),
            decreases self.spans@.len() - i,
        {
            proof {
                reveal(Seq::filter);
                assert(self.spans@.subrange(0, i + 1).drop_last() =~= self.spans@.subrange(0, i as int));
            }
            let child = match &self.spans[i].parent_span_id {
                Some(p) => same_text(p.as_str(), parent_span_id),
                None => false,
            };
            if child {
                let ghost before = out@;
                out.push(&self.spans[i]);
                assert(out@.map_values(|x: &Span| *x) =~= before.map_values(|x: &Span| *x).push(self.spans@[i as int]));
            }
            i = i + 1;
        }
        assert(self.spans@.subrange(0, self.spans@.len() as int) =~= self.spans@);
        out
    }

    /// The first span with the given id.
    pub fn get_span(&self, span_id: &str) -> (r: Option<&Span>)
        ensures
            match r {
                Some(x) => exists|i: int|
                    0 <= i < self.spans@.len() && self.spans@[i] == *x && x.span_id@ == span_id@
                        && forall|j: int| 0 <= j < i ==> self.spans@[j].span_id@ != span_id@,
                None => forall|i: int|
                    0 <= i < self.spans@.len() ==> self.spans@[i].span_id@ != span_id@,
            },
    {
        let mut i: usize = 0;
        while i < self.spans.len()
            invariant
                i <= self.spans@.len(),
                forall|j: int| 0 <= j < i ==> self.spans@[j].span_id@ != span_id@,
            decreases self.spans@.len() - i,
        {
            if same_text(self.spans[i].span_id.as_str(), span_id) {
                return Some(&self.spans[i]);
            }
            i = i + 1;
        }
        None
    }
}

/// The duration of a trace is its latest end minus its earliest start: for
/// every span, the start is at or after the earliest start and the end at or
/// before the latest end, and both bounds are attained.
pub proof fn lemma_trace_duration_bounds(s: Seq<Span>)
    requires
        s.len() > 0,
    ensures
        trace_duration(s) == max_end(s) - min_start(s),
        forall|i: int| 0 <= i < s.len() ==> min_start(s) <= s[i].start_time_unix_nano,
        forall|i: int| 0 <= i < s.len() ==> s[i].end_time_unix_nano <= max_end(s),
        exists|i: int| 0 <= i < s.len() && s[i].start_time_unix_nano == min_start(s),
        exists|i: int| 0 <= i < s.len() && s[i].end_time_unix_nano == max_end(s),
    decreases s.len(),
{
    if s.len() > 1 {
        let t = s.drop_last();
        lemma_trace_duration_bounds(t);
        assert forall|i: int| 0 <= i < s.len() implies min_start(s) <= s[i].start_time_unix_nano by {
            if i < s.len() - 1 {
                assert(s[i] == t[i]);
            }
        }
        assert forall|i: int| 0 <= i < s.len() implies s[i].end_time_unix_nano <= max_end(s) by {
            if i < s.len() - 1 {
                assert(s[i] == t[i]);
            }
        }
        let a = choose|i: int| 0 <= i < t.len() && t[i].start_time_unix_nano == min_start(t);
        let b = choose|i: int| 0 <= i < t.len() && t[i].end_time_unix_nano == max_end(t);
        assert(s[a] == t[a]);
        assert(s[b] == t[b]);
        if s.last().start_time_unix_nano < min_start(t) {
            assert(s[s.len() - 1].start_time_unix_nano == min_start(s));
        } else {
            assert(s[a].start_time_unix_nano == min_start(s));
        }
        if s.last().end_time_unix_nano > max_end(t) {
            assert(s[s.len() - 1].end_time_unix_nano == max_end(s));
        } else {
            assert(s[b].end_time_unix_nano == max_end(s));
        }
    } else {
        assert(s[0].start_time_unix_nano == min_start(s));
        assert(s[0].end_time_unix_nano == max_end(s));
    }
}

/// A trace with at least one error span reports errors.
pub proof fn lemma_error_span_means_errors(s: Seq<Span>, i: int)
    requires
        0 <= i < s.len(),
        s[i].status.code == StatusCode::Error,
    ensures
        exists|k: int| 0 <= k < s.len() && s[k].spec_is_error(),
{
    assert(s[i].spec_is_error());
}

} // verus!
