use s2_mcp::errors::{Error, RequestError};
use s2_mcp::metrics::{
    account_metric_set, basin_metric_set, metric_limits, stream_metric_set, take_bounded, AccountMetricSetDto,
    BasinMetricSetDto, MetricIntervalDto, MetricQueryDto, MetricRange, StreamMetricSetDto,
};

fn message<T>(result: Result<T, Error>) -> String {
    match result {
        Err(Error::Request(RequestError::InvalidArguments(m))) => m,
        _ => panic!("expected invalid arguments"),
    }
}

fn query(start: u32, end: u32, interval: Option<MetricIntervalDto>) -> MetricQueryDto {
    MetricQueryDto { start, end, interval }
}

#[test]
fn interval_lengths() {
    assert_eq!(MetricIntervalDto::Minute.seconds(), 60);
    assert_eq!(MetricIntervalDto::Hour.seconds(), 3600);
    assert_eq!(MetricIntervalDto::Day.seconds(), 86400);
}

#[test]
fn metric_windows_must_be_nonempty_and_bounded() {
    assert_eq!(message(query(10, 10, None).validate(None)), "metric query end must be greater than start");
    assert_eq!(message(query(10, 5, None).validate(None)), "metric query end must be greater than start");
    assert_eq!(
        message(query(0, 2_592_001, None).validate(None)),
        "metric query range cannot exceed 2592000 seconds"
    );
    assert!(query(0, 2_592_000, None).validate(None).is_ok());
    assert!(query(0, 1440 * 60, None).validate(Some(60)).is_ok());
    assert_eq!(
        message(query(0, 1440 * 60 + 1, None).validate(Some(60))),
        "metric query cannot request more than 1440 points per series"
    );
}

#[test]
fn interval_is_refused_where_the_set_takes_none() {
    assert_eq!(
        message(account_metric_set(AccountMetricSetDto::ActiveBasins, &query(0, 60, Some(MetricIntervalDto::Hour)))),
        "interval is not supported for this metric set"
    );
    assert!(matches!(
        account_metric_set(AccountMetricSetDto::ActiveBasins, &query(0, 60, None)),
        Ok(MetricRange::Range { start: 0, end: 60 })
    ));
    assert!(matches!(
        stream_metric_set(StreamMetricSetDto::Storage, &query(0, 60, None)),
        Ok(MetricRange::Range { start: 0, end: 60 })
    ));
}

#[test]
fn default_intervals_bound_the_points() {
    // Append operations are sampled every minute by default: a day has 1440.
    assert!(basin_metric_set(BasinMetricSetDto::AppendOps, &query(0, 86_400, None)).is_ok());
    assert!(basin_metric_set(BasinMetricSetDto::AppendOps, &query(0, 86_401, None)).is_err());
    // An hourly interval admits the same window and is passed on.
    assert!(matches!(
        basin_metric_set(BasinMetricSetDto::AppendOps, &query(0, 86_401, Some(MetricIntervalDto::Hour))),
        Ok(MetricRange::RangeAndInterval { start: 0, end: 86_401, interval: Some(MetricIntervalDto::Hour) })
    ));
    // Basin storage is sampled hourly and takes no interval.
    assert!(basin_metric_set(BasinMetricSetDto::Storage, &query(0, 2_592_000, None)).is_ok());
    assert!(matches!(
        account_metric_set(AccountMetricSetDto::AccountOps, &query(5, 65, None)),
        Ok(MetricRange::RangeAndInterval { start: 5, end: 65, interval: None })
    ));
}

#[test]
fn values_are_taken_from_a_shared_room() {
    let mut room = 4096;
    assert_eq!(take_bounded(10, &mut room), (10, false));
    assert_eq!(room, 4086);
    assert_eq!(take_bounded(2000, &mut room), (1024, true));
    assert_eq!(room, 3062);
    let mut small = 5;
    assert_eq!(take_bounded(9, &mut small), (5, true));
    assert_eq!(small, 0);
}

#[test]
fn metric_responses_are_bounded() {
    let (kept, truncated) = metric_limits(&vec![Some(3), None, Some(2000)]);
    assert_eq!(kept, vec![(3, false), (0, false), (1024, true)]);
    assert!(truncated);

    let (kept, truncated) = metric_limits(&vec![Some(1); 70]);
    assert_eq!(kept.len(), 64);
    assert!(truncated);

    let (kept, truncated) = metric_limits(&vec![Some(1024); 5]);
    assert_eq!(kept[3], (1024, false));
    assert_eq!(kept[4], (0, true));
    assert!(truncated);

    let (kept, truncated) = metric_limits(&vec![Some(4), None]);
    assert_eq!(kept, vec![(4, false), (0, false)]);
    assert!(!truncated);
}
