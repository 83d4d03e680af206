use vstd::prelude::*;

use crate::errors::{Error, RequestError};
use crate::policy::{policy_allows, Access, Policy, Scope};
use crate::records::invalid_arguments;
use crate::text::copy_str;

verus! {

pub const MAX_METRIC_RANGE_SECONDS: u32 = 2592000;

pub const MAX_METRIC_POINTS_PER_SERIES: u32 = 1440;

pub const MAX_METRICS: usize = 64;

pub const MAX_VALUES_PER_METRIC: usize = 1024;

pub const MAX_METRIC_OUTPUT_ITEMS: usize = 4096;

/// The sampling interval of a metric series.
#[derive(Clone, Copy, PartialEq, Eq, Structural)]
pub enum MetricIntervalDto {
    Minute,
    Hour,
    Day,
}

pub open spec fn interval_seconds(i: MetricIntervalDto) -> u32 {
    match i {
        MetricIntervalDto::Minute => 60,
        MetricIntervalDto::Hour => 3600,
        MetricIntervalDto::Day => 86400,
    }
}

impl MetricIntervalDto {
    pub fn seconds(self) -> (s: u32)
        ensures
            s == interval_seconds(self),
    {
        match self {
            MetricIntervalDto::Minute => 60,
            MetricIntervalDto::Hour => 3600,
            MetricIntervalDto::Day => 86400,
        }
    }
}

/// A metrics time window, with an optional interval.
#[derive(Clone, Copy)]
pub struct MetricQueryDto {
    pub start: u32,
    pub end: u32,
    pub interval: Option<MetricIntervalDto>,
}

/// The error text of a metrics query, if any: the window must be nonempty,
/// at most 30 days, and sampled into at most 1440 points.
pub open spec fn query_problem(q: MetricQueryDto, sampling_seconds: Option<u32>) -> Option<Seq<char>> {
    if q.end <= q.start {
        Some("metric query end must be greater than start"@)
    } else if q.end - q.start > MAX_METRIC_RANGE_SECONDS {
        Some("metric query range cannot exceed 2592000 seconds"@)
    } else if sampling_seconds matches Some(s) && s > 0 && (q.end - q.start + s - 1) / (s as int) > MAX_METRIC_POINTS_PER_SERIES {
        Some("metric query cannot request more than 1440 points per series"@)
    } else {
        None
    }
}

/// The window of a metric set, and its interval where the set has one.
#[derive(Clone, Copy)]
pub enum MetricRange {
    Range { start: u32, end: u32 },
    RangeAndInterval { start: u32, end: u32, interval: Option<MetricIntervalDto> },
}

impl MetricQueryDto {
    /// Checks the window against the limits, for series sampled every
    /// `sampling_seconds`.
    pub fn validate(&self, sampling_seconds: Option<u32>) -> (r: Result<(), Error>)
        requires
            sampling_seconds matches Some(s) ==> s > 0,
        ensures
            r is Ok <==> query_problem(*self, sampling_seconds) is None,
            r matches Err(e) ==> invalid_arguments(e, query_problem(*self, sampling_seconds)->0),
    {
        if self.end <= self.start {
            return Err(Error::Request(RequestError::InvalidArguments(copy_str("metric query end must be greater than start"))));
        }
        let duration = self.end - self.start;
        if duration > MAX_METRIC_RANGE_SECONDS {
            return Err(Error::Request(RequestError::InvalidArguments(copy_str("metric query range cannot exceed 2592000 seconds"))));
        }
        if let Some(s) = sampling_seconds {
            let points = duration / s + if duration % s == 0 { 0 } else { 1 };
            assert(points == (duration + s - 1) / (s as int)) by (nonlinear_arith)
                requires
                    s > 0,
                    points == duration / s + if duration % s == 0 { 0int } else { 1int },
            {
            }
            if points > MAX_METRIC_POINTS_PER_SERIES {
                return Err(Error::Request(RequestError::InvalidArguments(copy_str("metric query cannot request more than 1440 points per series"))));
            }
        }
        Ok(())
    }

    /// The window of a metric set that takes no interval.
    pub fn time_range_without_interval(&self, sampling_seconds: Option<u32>) -> (r: Result<MetricRange, Error>)
        requires
            sampling_seconds matches Some(s) ==> s > 0,
        ensures
            self.interval is Some ==> (r matches Err(e) && invalid_arguments(e, "interval is not supported for this metric set"@)),
            self.interval is None && query_problem(*self, sampling_seconds) is Some ==> (r matches Err(e) && invalid_arguments(e, query_problem(*self, sampling_seconds)->0)),
            self.interval is None && query_problem(*self, sampling_seconds) is None ==> (r matches Ok(MetricRange::Range { start, end }) && start == self.start && end == self.end),
    {
        if self.interval.is_some() {
            return Err(Error::Request(RequestError::InvalidArguments(copy_str("interval is not supported for this metric set"))));
        }
        self.validate(sampling_seconds)?;
        Ok(MetricRange::Range { start: self.start, end: self.end })
    }

    /// The window and interval of a metric set sampled by default every
    /// `default_interval`; the interval is passed on only when given.
    pub fn time_range_and_interval(&self, default_interval: MetricIntervalDto) -> (r: Result<MetricRange, Error>)
        ensures
            ({
                let effective = match self.interval { Some(i) => i, None => default_interval };
                &&& query_problem(*self, Some(interval_seconds(effective))) is Some ==> (r matches Err(e) && invalid_arguments(e, query_problem(*self, Some(interval_seconds(effective)))->0))
                &&& query_problem(*self, Some(interval_seconds(effective))) is None ==> (r matches Ok(MetricRange::RangeAndInterval { start, end, interval }) && start == self.start && end == self.end && interval == self.interval)
            }),
    {
        let effective = match self.interval {
            Some(i) => i,
            None => default_interval,
        };
        self.validate(Some(effective.seconds()))?;
        Ok(MetricRange::RangeAndInterval { start: self.start, end: self.end, interval: self.interval })
    }
}

#[derive(Clone, Copy)]
pub enum AccountMetricSetDto {
    ActiveBasins,
    AccountOps,
}

#[derive(Clone, Copy)]
pub enum BasinMetricSetDto {
    Storage,
    AppendOps,
    ReadOps,
    ReadThroughput,
    AppendThroughput,
    BasinOps,
}

#[derive(Clone, Copy)]
pub enum StreamMetricSetDto {
    Storage,
}

/// The window of an account metric set: active basins take no interval;
/// account operations are sampled hourly by default.
pub fn account_metric_set(set: AccountMetricSetDto, query: &MetricQueryDto) -> (r: Result<MetricRange, Error>)
    ensures
        set is ActiveBasins ==> (query.interval is Some ==> r is Err) && (query.interval is None ==> (r is Ok <==> query_problem(*query, None) is None)),
        set is AccountOps ==> (r is Ok <==> query_problem(*query, Some(interval_seconds(match query.interval { Some(i) => i, None => MetricIntervalDto::Hour }))) is None),
{
    match set {
        AccountMetricSetDto::ActiveBasins => query.time_range_without_interval(None),
        AccountMetricSetDto::AccountOps => query.time_range_and_interval(MetricIntervalDto::Hour),
    }
}

/// The window of a basin metric set: storage is sampled hourly without an
/// interval; operation and throughput sets by minute, basin operations by
/// hour, by default.
pub fn basin_metric_set(set: BasinMetricSetDto, query: &MetricQueryDto) -> (r: Result<MetricRange, Error>)
    ensures
        set is Storage ==> (query.interval is Some ==> r is Err) && (query.interval is None ==> (r is Ok <==> query_problem(*query, Some(3600)) is None)),
        set is BasinOps ==> (r is Ok <==> query_problem(*query, Some(interval_seconds(match query.interval { Some(i) => i, None => MetricIntervalDto::Hour }))) is None),
        !(set is Storage) && !(set is BasinOps) ==> (r is Ok <==> query_problem(*query, Some(interval_seconds(match query.interval { Some(i) => i, None => MetricIntervalDto::Minute }))) is None),
{
    match set {
        BasinMetricSetDto::Storage => query.time_range_without_interval(Some(MetricIntervalDto::Hour.seconds())),
        BasinMetricSetDto::AppendOps => query.time_range_and_interval(MetricIntervalDto::Minute),
        BasinMetricSetDto::ReadOps => query.time_range_and_interval(MetricIntervalDto::Minute),
        BasinMetricSetDto::ReadThroughput => query.time_range_and_interval(MetricIntervalDto::Minute),
        BasinMetricSetDto::AppendThroughput => query.time_range_and_interval(MetricIntervalDto::Minute),
        BasinMetricSetDto::BasinOps => query.time_range_and_interval(MetricIntervalDto::Hour),
    }
}

/// The window of a stream metric set: storage, sampled by minute, without an
/// interval.
pub fn stream_metric_set(set: StreamMetricSetDto, query: &MetricQueryDto) -> (r: Result<MetricRange, Error>)
    ensures
        query.interval is Some ==> r is Err,
        query.interval is None ==> (r is Ok <==> query_problem(*query, Some(60)) is None),
{
    match set {
        StreamMetricSetDto::Storage => query.time_range_without_interval(Some(MetricIntervalDto::Minute.seconds())),
    }
}

/// Values kept of one series: at most 1024, and no more than the response
/// has room for; the room shrinks by what is kept.
pub fn take_bounded(source_length: usize, remaining_items: &mut usize) -> (r: (usize, bool))
    ensures
        r.0 == min3(source_length as int, MAX_VALUES_PER_METRIC as int, *old(remaining_items) as int),
        r.1 == (r.0 < source_length),
        *final(remaining_items) == *old(remaining_items) - r.0,
{
    let mut limit = source_length;
    if limit > MAX_VALUES_PER_METRIC {
        limit = MAX_VALUES_PER_METRIC;
    }
    if limit > *remaining_items {
        limit = *remaining_items;
    }
    *remaining_items = *remaining_items - limit;
    (limit, limit < source_length)
}

pub open spec fn min3(a: int, b: int, c: int) -> int {
    let m = if a <= b {
        a
    } else {
        b
    };
    if m <= c {
        m
    } else {
        c
    }
}

/// How many values each kept series keeps (a scalar has none to cut), as
/// `take_bounded` decides them in order from a shared room of 4096 items.
pub open spec fn kept_values(series: Seq<Option<usize>>, room: int) -> Seq<(usize, bool)>
    decreases series.len(),
{
    if series.len() == 0 {
        Seq::empty()
    } else {
        match series[0] {
            None => seq![(0usize, false)] + kept_values(series.drop_first(), room),
            Some(n) => {
                let k = min3(n as int, MAX_VALUES_PER_METRIC as int, room);
                seq![(k as usize, k < n)] + kept_values(series.drop_first(), room - k)
            },
        }
    }
}

/// Some series lost values.
pub open spec fn any_cut(s: Seq<(usize, bool)>) -> bool {
    exists|i: int| 0 <= i < s.len() && (#[trigger] s[i]).1
}

pub open spec fn kept_count(series: Seq<Option<usize>>) -> int {
    if series.len() > MAX_METRICS {
        MAX_METRICS as int
    } else {
        series.len() as int
    }
}

/// The cut of a metrics response: at most 64 series; the response is
/// truncated when series were dropped or any series lost values.
pub fn metric_limits(series: &Vec<Option<usize>>) -> (r: (Vec<(usize, bool)>, bool))
    ensures
        r.0@ == kept_values(series@.subrange(0, kept_count(series@)), MAX_METRIC_OUTPUT_ITEMS as int),
        r.1 == (series@.len() > MAX_METRICS || any_cut(r.0@)),
{
    let n = if series.len() > MAX_METRICS {
        MAX_METRICS
    } else {
        series.len()
    };
    let ghost kept = series@.subrange(0, n as int);
    let mut remaining: usize = MAX_METRIC_OUTPUT_ITEMS;
    let mut truncated = series.len() > MAX_METRICS;
    let mut out: Vec<(usize, bool)> = Vec::new();
    let mut i: usize = 0;
    assert(kept.subrange(0, n as int) =~= kept);
    while i < n
        invariant
            n <= series@.len(),
            kept == series@.subrange(0, n as int),
            i <= n,
            out@ + kept_values(kept.subrange(i as int, n as int), remaining as int) == kept_values(kept, MAX_METRIC_OUTPUT_ITEMS as int),
            truncated == (series@.len() > MAX_METRICS || any_cut(out@)),
            out@.len() == i,
        decreases n - i,
    {
        let ghost rest = kept.subrange(i as int, n as int);
        assert(rest[0] == series@[i as int]);
        assert(rest.drop_first() =~= kept.subrange(i + 1, n as int));
        let ghost before = out@;
        let entry = match series[i] {
            None => (0usize, false),
            Some(len) => take_bounded(len, &mut remaining),
        };
        out.push(entry);
        if entry.1 {
            truncated = true;
        }
        assert(out@ =~= before.push(entry));
        proof {
            if entry.1 {
                assert(out@[i as int].1);
            } else {
                if exists|j: int| 0 <= j < out@.len() && (#[trigger] out@[j]).1 {
                    let j = choose|j: int| 0 <= j < out@.len() && (#[trigger] out@[j]).1;
                    assert(j < i);
                    assert(before[j].1);
                }
                if exists|j: int| 0 <= j < before.len() && (#[trigger] before[j]).1 {
                    let j = choose|j: int| 0 <= j < before.len() && (#[trigger] before[j]).1;
                    assert(out@[j].1);
                }
            }
        }
        assert(before + (seq![entry] + kept_values(kept.subrange(i + 1, n as int), remaining as int)) =~= out@ + kept_values(kept.subrange(i + 1, n as int), remaining as int));
        i = i + 1;
    }
    assert(kept.subrange(n as int, n as int) =~= Seq::<Option<usize>>::empty());
    assert(out@ + Seq::<(usize, bool)>::empty() =~= out@);
    (out, truncated)
}

} // verus!
