//! Conversion of OTLP metric exports into metrics.
use vstd::prelude::*;
use crate::convert::{attrs_from, convert_attributes, resource_service, service_of};
use crate::metric::{AggregationTemporality, Metric, MetricDataPoint, MetricType, MetricValue};
use crate::otlp;
use crate::span::{copy_opt, opt_view};

verus! {

/// The temporality of a wire code: 1 is delta, 2 cumulative, anything else
/// unspecified.
pub open spec fn temporality_of(t: i32) -> AggregationTemporality {
    if t == 1 {
        AggregationTemporality::Delta
    } else if t == 2 {
        AggregationTemporality::Cumulative
    } else {
        AggregationTemporality::Unspecified
    }
}

/// Times, start time and attributes of a point carried over.
pub open spec fn point_frame(
    time: u64,
    start: u64,
    attrs: Seq<otlp::KeyValue>,
    p: MetricDataPoint,
) -> bool {
    &&& p.time_unix_nano == time as i64
    &&& p.start_time_unix_nano == Some(start as i64)
    &&& p.attributes@ == attrs_from(attrs)
}

/// A number point keeps its double or integer; an unset value reads as 0.0.
pub open spec fn number_point_converted(w: otlp::NumberDataPoint, p: MetricDataPoint) -> bool {
    &&& point_frame(w.time_unix_nano, w.start_time_unix_nano, w.attributes@, p)
    &&& p.value == match w.value {
        Some(otlp::NumberValue::AsDouble(d)) => MetricValue::Double(d),
        Some(otlp::NumberValue::AsInt(i)) => MetricValue::Int(i),
        None => MetricValue::Double(0),
    }
}

/// A histogram point becomes its sum, or its count when it has no sum.
pub open spec fn histogram_point_converted(w: otlp::HistogramDataPoint, p: MetricDataPoint) -> bool {
    &&& point_frame(w.time_unix_nano, w.start_time_unix_nano, w.attributes@, p)
    &&& p.value == match w.sum {
        Some(s) => MetricValue::Double(s),
        None => MetricValue::Count(w.count),
    }
}

/// A summary point becomes its sum.
pub open spec fn summary_point_converted(w: otlp::SummaryDataPoint, p: MetricDataPoint) -> bool {
    &&& point_frame(w.time_unix_nano, w.start_time_unix_nano, w.attributes@, p)
    &&& p.value == MetricValue::Double(w.sum)
}

/// `m` is the metric that wire metric `w`, which carries data, becomes
/// under service `svc`.
pub open spec fn metric_converted(w: otlp::Metric, svc: Option<Seq<char>>, m: Metric) -> bool {
    &&& m.name@ == w.name@
    &&& opt_view(m.description) == Some(w.description@)
    &&& opt_view(m.unit) == Some(w.unit@)
    &&& opt_view(m.service_name) == svc
    &&& match w.data {
        Some(otlp::MetricData::Gauge(g)) => {
            &&& m.metric_type == MetricType::Gauge
            &&& m.temporality == AggregationTemporality::Unspecified
            &&& m.data_points@.len() == g.data_points@.len()
            &&& forall|k: int| 0 <= k < g.data_points@.len()
                ==> number_point_converted(#[trigger] g.data_points@[k], m.data_points@[k])
        },
        Some(otlp::MetricData::Sum(s)) => {
            &&& m.metric_type == MetricType::Sum
            &&& m.temporality == temporality_of(s.aggregation_temporality)
            &&& m.data_points@.len() == s.data_points@.len()
            &&& forall|k: int| 0 <= k < s.data_points@.len()
                ==> number_point_converted(#[trigger] s.data_points@[k], m.data_points@[k])
        },
        Some(otlp::MetricData::Histogram(h)) => {
            &&& m.metric_type == MetricType::Histogram
            &&& m.temporality == temporality_of(h.aggregation_temporality)
            &&& m.data_points@.len() == h.data_points@.len()
            &&& forall|k: int| 0 <= k < h.data_points@.len()
                ==> histogram_point_converted(#[trigger] h.data_points@[k], m.data_points@[k])
        },
        Some(otlp::MetricData::Summary(s)) => {
            &&& m.metric_type == MetricType::Summary
            &&& m.temporality == AggregationTemporality::Unspecified
            &&& m.data_points@.len() == s.data_points@.len()
            &&& forall|k: int| 0 <= k < s.data_points@.len()
                ==> summary_point_converted(#[trigger] s.data_points@[k], m.data_points@[k])
        },
        None => false,
    }
}

pub open spec fn has_data(m: otlp::Metric) -> bool {
    m.data is Some
}

/// The wire metrics that carry data, of a list of scopes, in order.
pub open spec fn scope_metrics_flat(ss: Seq<otlp::ScopeMetrics>) -> Seq<otlp::Metric>
    decreases ss.len(),
{
    if ss.len() == 0 {
        Seq::empty()
    } else {
        scope_metrics_flat(ss.drop_last()) + ss.last().metrics@.filter(|m: otlp::Metric| has_data(m))
    }
}

pub open spec fn metrics_with_service(s: Seq<otlp::Metric>, svc: Option<Seq<char>>) -> Seq<(otlp::Metric, Option<Seq<char>>)> {
    s.map_values(|x: otlp::Metric| (x, svc))
}

/// The wire metrics that carry data, of a list of resources, in order, each
/// with its service.
pub open spec fn resource_metrics_flat(rs: Seq<otlp::ResourceMetrics>) -> Seq<(otlp::Metric, Option<Seq<char>>)>
    decreases rs.len(),
{
    if rs.len() == 0 {
        Seq::empty()
    } else {
        resource_metrics_flat(rs.drop_last()) + metrics_with_service(
            scope_metrics_flat(rs.last().scope_metrics@),
            resource_service(rs.last().resource),
        )
    }
}

pub open spec fn metrics_converted(w: Seq<(otlp::Metric, Option<Seq<char>>)>, out: Seq<Metric>) -> bool {
    &&& out.len() == w.len()
    &&& forall|k: int| 0 <= k < w.len() ==> metric_converted(#[trigger] w[k].0, w[k].1, out[k])
}

/// Maps a wire temporality code.
pub fn convert_temporality(t: i32) -> (r: AggregationTemporality)
    ensures
        r == temporality_of(t),
{
    match t {
        1 => AggregationTemporality::Delta,
        2 => AggregationTemporality::Cumulative,
        _ => AggregationTemporality::Unspecified,
    }
}

pub fn convert_number_data_point(dp: &otlp::NumberDataPoint) -> (r: MetricDataPoint)
    ensures
        number_point_converted(*dp, r),
{
    let value = match dp.value {
        Some(otlp::NumberValue::AsDouble(d)) => MetricValue::Double(d),
        Some(otlp::NumberValue::AsInt(i)) => MetricValue::Int(i),
        None => MetricValue::Double(0),
    };
    MetricDataPoint::new(
        dp.time_unix_nano as i64,
        Some(dp.start_time_unix_nano as i64),
        value,
        convert_attributes(&dp.attributes),
    )
}

pub fn convert_histogram_data_point(dp: &otlp::HistogramDataPoint) -> (r: MetricDataPoint)
    ensures
        histogram_point_converted(*dp, r),
{
    let value = match dp.sum {
        Some(s) => MetricValue::Double(s),
        None => MetricValue::Count(dp.count),
    };
    MetricDataPoint::new(
        dp.time_unix_nano as i64,
        Some(dp.start_time_unix_nano as i64),
        value,
        convert_attributes(&dp.attributes),
    )
}

pub fn convert_summary_data_point(dp: &otlp::SummaryDataPoint) -> (r: MetricDataPoint)
    ensures
        summary_point_converted(*dp, r),
{
    MetricDataPoint::new(
        dp.time_unix_nano as i64,
        Some(dp.start_time_unix_nano as i64),
        MetricValue::Double(dp.sum),
        convert_attributes(&dp.attributes),
    )
}

fn convert_number_points(points: &Vec<otlp::NumberDataPoint>) -> (r: Vec<MetricDataPoint>)
    ensures
        r@.len() == points@.len(),
        forall|k: int| 0 <= k < points@.len() ==> number_point_converted(#[trigger] points@[k], r@[k]),
{
    let mut out: Vec<MetricDataPoint> = Vec::new();
    let mut i: usize = 0;
    while i < points.len()
        invariant
            i <= points@.len(),
            out@.len() == i,
            forall|k: int| 0 <= k < i ==> number_point_converted(#[trigger] points@[k], out@[k]),
        decreases points@.len() - i,
    {
        out.push(convert_number_data_point(&points[i]));
        i = i + 1;
    }
    out
}

fn convert_histogram_points(points: &Vec<otlp::HistogramDataPoint>) -> (r: Vec<MetricDataPoint>)
    ensures
        r@.len() == points@.len(),
        forall|k: int| 0 <= k < points@.len() ==> histogram_point_converted(#[trigger] points@[k], r@[k]),
{
    let mut out: Vec<MetricDataPoint> = Vec::new();
    let mut i: usize = 0;
    while i < points.len()
        invariant
            i <= points@.len(),
            out@.len() == i,
            forall|k: int| 0 <= k < i ==> histogram_point_converted(#[trigger] points@[k], out@[k]),
        decreases points@.len() - i,
    {
        out.push(convert_histogram_data_point(&points[i]));
        i = i + 1;
    }
    out
}

fn convert_summary_points(points: &Vec<otlp::SummaryDataPoint>) -> (r: Vec<MetricDataPoint>)
    ensures
        r@.len() == points@.len(),
        forall|k: int| 0 <= k < points@.len() ==> summary_point_converted(#[trigger] points@[k], r@[k]),
{
    let mut out: Vec<MetricDataPoint> = Vec::new();
    let mut i: usize = 0;
    while i < points.len()
        invariant
            i <= points@.len(),
            out@.len() == i,
            forall|k: int| 0 <= k < i ==> summary_point_converted(#[trigger] points@[k], out@[k]),
        decreases points@.len() - i,
    {
        out.push(convert_summary_data_point(&points[i]));
        i = i + 1;
    }
    out
}

/// Converts one wire metric under the service name of its resource; a
/// metric that carries no data gives none.
pub fn convert_metric(otlp_metric: &otlp::Metric, service_name: Option<String>) -> (r: Option<Metric>)
    ensures
        match r {
            Some(m) => metric_converted(*otlp_metric, opt_view(service_name), m),
            None => !has_data(*otlp_metric),
        },
{
    let name = otlp_metric.name.clone();
    let description = Some(otlp_metric.description.clone());
    let unit = Some(otlp_metric.unit.clone());
    match &otlp_metric.data {
        Some(otlp::MetricData::Gauge(gauge)) => Some(
            Metric::new(
                name,
                description,
                unit,
                MetricType::Gauge,
                AggregationTemporality::Unspecified,
                convert_number_points(&gauge.data_points),
                service_name,
            ),
        ),
        Some(otlp::MetricData::Sum(sum)) => Some(
            Metric::new(
                name,
                description,
                unit,
                MetricType::Sum,
                convert_temporality(sum.aggregation_temporality),
                convert_number_points(&sum.data_points),
                service_name,
            ),
        ),
        Some(otlp::MetricData::Histogram(hist)) => Some(
            Metric::new(
                name,
                description,
                unit,
                MetricType::Histogram,
                convert_temporality(hist.aggregation_temporality),
                convert_histogram_points(&hist.data_points),
                service_name,
            ),
        ),
        Some(otlp::MetricData::Summary(summary)) => Some(
            Metric::new(
                name,
                description,
                unit,
                MetricType::Summary,
                AggregationTemporality::Unspecified,
                convert_summary_points(&summary.data_points),
                service_name,
            ),
        ),
        None => None,
    }
}

/// Converts every metric that carries data, of every scope of every
/// resource, in wire order; each carries the `service.name` of its resource.
pub fn convert_resource_metrics(resource_metrics: &Vec<otlp::ResourceMetrics>) -> (r: Vec<Metric>)
    ensures
        metrics_converted(resource_metrics_flat(resource_metrics@), r@),
{
    let mut out: Vec<Metric> = Vec::new();
    let mut a: usize = 0;
    while a < resource_metrics.len()
        invariant
            a <= resource_metrics@.len(),
            metrics_converted(resource_metrics_flat(resource_metrics@.subrange(0, a as int)), out@),
        decreases resource_metrics@.len() - a,
    {
        let rm = &resource_metrics[a];
        let service_name = service_of(&rm.resource);
        let ghost svc = opt_view(service_name);
        let ghost done = resource_metrics_flat(resource_metrics@.subrange(0, a as int));
        let mut b: usize = 0;
        while b < rm.scope_metrics.len()
            invariant
                b <= rm.scope_metrics@.len(),
                svc == opt_view(service_name),
                metrics_converted(
                    done + metrics_with_service(scope_metrics_flat(rm.scope_metrics@.subrange(0, b as int)), svc),
                    out@,
                ),
            decreases rm.scope_metrics@.len() - b,
        {
            let metrics = &rm.scope_metrics[b].metrics;
            let ghost before = scope_metrics_flat(rm.scope_metrics@.subrange(0, b as int));
            let ghost keep = |m: otlp::Metric| has_data(m);
            let mut c: usize = 0;
            while c < metrics.len()
                invariant
                    c <= metrics@.len(),
                    svc == opt_view(service_name),
                    keep == (|m: otlp::Metric| has_data(m)),
                    metrics_converted(
                        done + metrics_with_service(before + metrics@.subrange(0, c as int).filter(keep), svc),
                        out@,
                    ),
                decreases metrics@.len() - c,
            {
                let ghost target = done + metrics_with_service(
                    before + metrics@.subrange(0, c as int).filter(keep),
                    svc,
                );
                proof {
                    reveal(Seq::filter);
                    assert(metrics@.subrange(0, c + 1).drop_last() =~= metrics@.subrange(0, c as int));
                }
                match convert_metric(&metrics[c], copy_opt(&service_name)) {
                    Some(m) => {
                        out.push(m);
                        assert(done + metrics_with_service(
                            before + metrics@.subrange(0, c + 1).filter(keep),
                            svc,
                        ) =~= target.push((metrics@[c as int], svc)));
                    },
                    None => {
                        assert(done + metrics_with_service(
                            before + metrics@.subrange(0, c + 1).filter(keep),
                            svc,
                        ) =~= target);
                    },
                }
                c = c + 1;
            }
            assert(metrics@.subrange(0, metrics@.len() as int) =~= metrics@);
            assert(rm.scope_metrics@.subrange(0, b + 1).drop_last() =~= rm.scope_metrics@.subrange(0, b as int));
            b = b + 1;
        }
        assert(rm.scope_metrics@.subrange(0, rm.scope_metrics@.len() as int) =~= rm.scope_metrics@);
        assert(resource_metrics@.subrange(0, a + 1).drop_last() =~= resource_metrics@.subrange(0, a as int));
        a = a + 1;
    }
    assert(resource_metrics@.subrange(0, resource_metrics@.len() as int) =~= resource_metrics@);
    out
}

/// Temporality codes other than 1 and 2 map to `Unspecified`.
pub proof fn lemma_unknown_temporality_is_neutral(t: i32)
    ensures
        !(1 <= t <= 2) ==> temporality_of(t) == AggregationTemporality::Unspecified,
{
}

} // verus!
