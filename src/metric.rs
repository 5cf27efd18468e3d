//! Metrics and their data points.
use vstd::prelude::*;
use crate::attributes::Attributes;

verus! {

/// The shape of a metric.
#[derive(Debug, Clone, Copy, PartialEq, Eq, Structural)]
pub enum MetricType {
    Gauge,
    Sum,
    Histogram,
    Summary,
}

/// Whether a metric's values are deltas or running totals.
#[derive(Debug, Clone, Copy, PartialEq, Eq, Structural)]
pub enum AggregationTemporality {
    Unspecified,
    Delta,
    Cumulative,
}

impl Default for AggregationTemporality {
    fn default() -> (r: Self)
        ensures
            r == AggregationTemporality::Unspecified,
    {
        AggregationTemporality::Unspecified
    }
}

/// The number carried by a data point, before it is read as a double:
/// an IEEE-754 bit pattern (`f64::to_bits`), a signed integer, or a count.
#[derive(Debug, Clone, Copy, PartialEq, Eq, Structural)]
pub enum MetricValue {
    Double(u64),
    Int(i64),
    Count(u64),
}

/// One sample of a metric; times are nanoseconds since the Unix epoch.
#[derive(Debug, Clone, PartialEq)]
pub struct MetricDataPoint {
    pub time_unix_nano: i64,
    pub start_time_unix_nano: Option<i64>,
    pub value: MetricValue,
    pub attributes: Attributes,
}

impl MetricDataPoint {
    pub fn new(
        time_unix_nano: i64,
        start_time_unix_nano: Option<i64>,
        value: MetricValue,
        attributes: Attributes,
    ) -> (r: Self)
        ensures
            r.time_unix_nano == time_unix_nano,
            r.start_time_unix_nano == start_time_unix_nano,
            r.value == value,
            r.attributes == attributes,
    {
        MetricDataPoint { time_unix_nano, start_time_unix_nano, value, attributes }
    }
}

/// A named metric with its data points.
#[derive(Debug, Clone, PartialEq)]
pub struct Metric {
    pub name: String,
    pub description: Option<String>,
    pub unit: Option<String>,
    pub metric_type: MetricType,
    pub temporality: AggregationTemporality,
    pub data_points: Vec<MetricDataPoint>,
    pub service_name: Option<String>,
}

impl Metric {
    #[allow(clippy::too_many_arguments)]
    pub fn new(
        name: String,
        description: Option<String>,
        unit: Option<String>,
        metric_type: MetricType,
        temporality: AggregationTemporality,
        data_points: Vec<MetricDataPoint>,
        service_name: Option<String>,
    ) -> (r: Self)
        ensures
            r.name == name,
            r.description == description,
            r.unit == unit,
            r.metric_type == metric_type,
            r.temporality == temporality,
            r.data_points == data_points,
            r.service_name == service_name,
    {
        Metric { name, description, unit, metric_type, temporality, data_points, service_name }
    }

    /// A gauge: no description or unit, no temporality.
    pub fn gauge(name: String, data_points: Vec<MetricDataPoint>, service_name: Option<String>) -> (r: Self)
        ensures
            r.name == name,
            r.description is None,
            r.unit is None,
            r.metric_type == MetricType::Gauge,
            r.temporality == AggregationTemporality::Unspecified,
            r.data_points == data_points,
            r.service_name == service_name,
    {
        Metric::new(
            name,
            None,
            None,
            MetricType::Gauge,
            AggregationTemporality::Unspecified,
            data_points,
            service_name,
        )
    }

    /// A cumulative sum: no description or unit.
    pub fn counter(name: String, data_points: Vec<MetricDataPoint>, service_name: Option<String>) -> (r: Self)
        ensures
            r.name == name,
            r.description is None,
            r.unit is None,
            r.metric_type == MetricType::Sum,
            r.temporality == AggregationTemporality::Cumulative,
            r.data_points == data_points,
            r.service_name == service_name,
    {
        Metric::new(
            name,
            None,
            None,
            MetricType::Sum,
            AggregationTemporality::Cumulative,
            data_points,
            service_name,
        )
    }

    /// The value of the last data point.
    pub fn latest_value(&self) -> (r: Option<MetricValue>)
        ensures
            self.data_points@.len() == 0 ==> r is None,
            self.data_points@.len() > 0 ==> r == Some(self.data_points@.last().value),
    {
        let n = self.data_points.len();
        if n == 0 {
            None
        } else {
            Some(self.data_points[n - 1].value)
        }
    }

    /// The number of data points.
    pub fn data_point_count(&self) -> (r: usize)
        ensures
            r == self.data_points@.len(),
    {
        self.data_points.len()
    }
}

} // verus!
