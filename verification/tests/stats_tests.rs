use std::time::Duration;

use clank_cli::histogram::{HdrHistogram, duration_to_micros};
use clank_cli::stats::{ErrorCategory, ErrorCounts, MAX_STORED_ERRORS, Percentiles, StatsCollector};
use clank_cli::text::format_number;

fn nanos(duration: Duration) -> u64 {
    duration.as_nanos() as u64
}

fn micros_close(actual: Option<u64>, expected: Duration) {
    let actual = Duration::from_micros(actual.expect("duration should exist"));
    let diff = actual.abs_diff(expected);

    assert!(
        diff <= Duration::from_micros(100),
        "actual: {:?}, expected: {:?}, diff: {:?}",
        actual,
        expected,
        diff
    );
}

#[test]
fn record_stores_latency_sample() {
    let mut histogram = HdrHistogram::new();

    histogram.record(nanos(Duration::from_millis(10)));

    assert_eq!(histogram.len(), 1);
    assert!(!histogram.is_empty());
    micros_close(histogram.min(), Duration::from_millis(10));
    micros_close(histogram.max(), Duration::from_millis(10));
}

#[test]
fn record_many_stores_multiple_samples() {
    let mut histogram = HdrHistogram::new();

    histogram.record_many(&[
        nanos(Duration::from_millis(10)),
        nanos(Duration::from_millis(20)),
        nanos(Duration::from_millis(30)),
    ]);

    assert_eq!(histogram.len(), 3);
    micros_close(histogram.min(), Duration::from_millis(10));
    micros_close(histogram.max(), Duration::from_millis(30));
}

#[test]
fn empty_histogram_returns_no_stats() {
    let histogram = HdrHistogram::new();

    assert!(histogram.is_empty());
    assert_eq!(histogram.len(), 0);
    assert_eq!(histogram.min(), None);
    assert_eq!(histogram.max(), None);
}

#[test]
fn histogram_handles_more_than_one_thousand_samples() {
    let mut histogram = HdrHistogram::new();

    for micros in 1..=1000 {
        histogram.record(nanos(Duration::from_micros(micros)));
    }

    assert_eq!(histogram.len(), 1000);
    assert_eq!(histogram.min().map(Duration::from_micros), Some(Duration::from_micros(1)));
    assert!(Duration::from_micros(histogram.max().unwrap()) >= Duration::from_micros(1000));
}

#[test]
fn to_durations_preserves_sample_count_for_snapshot_compatibility() {
    let mut histogram = HdrHistogram::new();

    histogram.record(nanos(Duration::from_millis(10)));
    histogram.record(nanos(Duration::from_millis(20)));
    histogram.record(nanos(Duration::from_millis(20)));

    let latencies = histogram.to_durations();

    assert_eq!(latencies.len(), 3);
}

#[test]
fn small_latencies_are_kept_exactly() {
    let mut histogram = HdrHistogram::new();

    histogram.record(nanos(Duration::from_micros(700)));
    histogram.record(nanos(Duration::from_micros(5)));
    histogram.record(nanos(Duration::from_micros(700)));

    assert_eq!(histogram.to_durations(), vec![5, 700, 700]);
    assert_eq!(histogram.recorded(), vec![(5, 1), (700, 2)]);
}

#[test]
fn duration_to_micros_never_returns_zero() {
    assert_eq!(duration_to_micros(0), 1);
    assert_eq!(duration_to_micros(999), 1);
    assert_eq!(duration_to_micros(2_500), 2);
}

#[test]
fn record_increments_successful_requests_and_status_code_count() {
    let mut stats = StatsCollector::new();

    stats.record(nanos(Duration::from_millis(25)), 200);
    stats.record(nanos(Duration::from_millis(30)), 200);
    stats.record(nanos(Duration::from_millis(40)), 302);

    let snapshot = stats.snapshot(0);

    assert_eq!(snapshot.total_requests, 3);
    assert_eq!(snapshot.successful_requests, 3);
    assert_eq!(snapshot.total_errors, 0);
    assert_eq!(snapshot.status_codes.get(&200), Some(&2));
    assert_eq!(snapshot.status_codes.get(&302), Some(&1));
    assert_eq!(snapshot.histogram.len(), 3);
    assert_eq!(snapshot.latencies.len(), 3);
}

#[test]
fn record_counts_http_5xx_status_error() {
    let mut stats = StatsCollector::new();

    stats.record(nanos(Duration::from_millis(25)), 503);

    let snapshot = stats.snapshot(0);

    assert_eq!(snapshot.total_requests, 1);
    assert_eq!(snapshot.successful_requests, 0);
    assert_eq!(snapshot.total_errors, 1);
    assert_eq!(snapshot.error_counts.http_4xx, 0);
    assert_eq!(snapshot.error_counts.http_5xx, 1);
    assert_eq!(snapshot.error_counts.http_other, 0);
    assert_eq!(snapshot.status_codes.get(&503), Some(&1));
    assert_eq!(snapshot.histogram.len(), 1);
}

#[test]
fn record_counts_mixed_error_categories() {
    let mut stats = StatsCollector::new();

    stats.record(nanos(Duration::from_millis(10)), 200);
    stats.record(nanos(Duration::from_millis(20)), 404);
    stats.record(nanos(Duration::from_millis(30)), 503);
    stats.record_error(ErrorCategory::Timeout, "request timed out");
    stats.record_error(ErrorCategory::Connection, "connection refused");
    stats.record_error(ErrorCategory::Other, "unsupported method");

    let snapshot = stats.snapshot(0);

    assert_eq!(snapshot.total_requests, 6);
    assert_eq!(snapshot.successful_requests, 1);
    assert_eq!(snapshot.total_errors, 5);
    assert_eq!(snapshot.error_counts.timeout, 1);
    assert_eq!(snapshot.error_counts.connection, 1);
    assert_eq!(snapshot.error_counts.http_4xx, 1);
    assert_eq!(snapshot.error_counts.http_5xx, 1);
    assert_eq!(snapshot.error_counts.http_other, 0);
    assert_eq!(snapshot.error_counts.other, 1);
    assert_eq!(snapshot.error_counts.total(), 5);
    assert_eq!(snapshot.error_counts.http_total(), 2);
}

#[test]
fn record_error_increments_total_errors_by_category() {
    let mut stats = StatsCollector::new();

    stats.record_error(ErrorCategory::Connection, "connection refused");

    let snapshot = stats.snapshot(0);

    assert_eq!(snapshot.total_requests, 1);
    assert_eq!(snapshot.successful_requests, 0);
    assert_eq!(snapshot.total_errors, 1);
    assert_eq!(snapshot.error_counts.connection, 1);
    assert_eq!(snapshot.errors.len(), 1);
    assert_eq!(snapshot.histogram.len(), 0);
    assert_eq!(snapshot.latencies.len(), 0);
}

#[test]
fn record_error_limits_stored_error_messages() {
    let mut stats = StatsCollector::new();

    for index in 0..150 {
        stats.record_error(ErrorCategory::Other, &format!("error-{index}"));
    }

    let snapshot = stats.snapshot(0);

    assert_eq!(snapshot.total_requests, 150);
    assert_eq!(snapshot.total_errors, 150);
    assert_eq!(snapshot.errors.len(), MAX_STORED_ERRORS);
    assert_eq!(snapshot.histogram.len(), 0);
    assert_eq!(snapshot.errors[0], "error-0");
    assert_eq!(snapshot.errors[99], "error-99");
}

#[test]
fn histogram_records_more_than_one_thousand_latency_samples() {
    let mut stats = StatsCollector::new();

    for micros in 1..=1000 {
        stats.record(nanos(Duration::from_micros(micros)), 200);
    }

    let snapshot = stats.snapshot(0);

    assert_eq!(snapshot.total_requests, 1000);
    assert_eq!(snapshot.successful_requests, 1000);
    assert_eq!(snapshot.histogram.len(), 1000);
    assert_eq!(snapshot.latencies.len(), 1000);
}

#[test]
fn record_counts_http_4xx_status_error() {
    let mut stats = StatsCollector::new();

    stats.record(nanos(Duration::from_millis(25)), 404);

    let snapshot = stats.snapshot(0);

    assert_eq!(snapshot.total_requests, 1);
    assert_eq!(snapshot.successful_requests, 0);
    assert_eq!(snapshot.total_errors, 1);
    assert_eq!(snapshot.error_counts.http_4xx, 1);
    assert_eq!(snapshot.error_counts.http_5xx, 0);
    assert_eq!(snapshot.error_counts.http_other, 0);
    assert_eq!(snapshot.status_codes.get(&404), Some(&1));
}

#[test]
fn record_error_http_category_counts_as_http_other() {
    let mut stats = StatsCollector::new();

    stats.record_error(ErrorCategory::Http, "HTTP error without status code");

    let snapshot = stats.snapshot(0);

    assert_eq!(snapshot.total_requests, 1);
    assert_eq!(snapshot.successful_requests, 0);
    assert_eq!(snapshot.total_errors, 1);
    assert_eq!(snapshot.error_counts.http_4xx, 0);
    assert_eq!(snapshot.error_counts.http_5xx, 0);
    assert_eq!(snapshot.error_counts.http_other, 1);
    assert_eq!(snapshot.error_counts.other, 0);
}

#[test]
fn record_counts_status_above_599_as_http_other() {
    let mut stats = StatsCollector::new();

    stats.record(nanos(Duration::from_millis(1)), 600);

    let snapshot = stats.snapshot(0);
    assert_eq!(snapshot.error_counts.http_other, 1);
    assert_eq!(snapshot.total_errors, 1);
}

#[test]
fn validation_errors_and_retries_are_counted() {
    let mut stats = StatsCollector::new();

    stats.record_with_retries(nanos(Duration::from_millis(10)), 200, 2);
    stats.record_error_with_retries(ErrorCategory::Timeout, "request timed out", 1);
    stats.record_validation_error_with_retries(
        nanos(Duration::from_millis(90)),
        200,
        "expected body to match pattern `ok`",
        3,
    );

    let snapshot = stats.snapshot(nanos(Duration::from_secs(2)));

    assert_eq!(snapshot.duration, nanos(Duration::from_secs(2)));
    assert_eq!(snapshot.total_requests, 3);
    assert_eq!(snapshot.successful_requests, 1);
    assert_eq!(snapshot.total_errors, 2);
    assert_eq!(snapshot.validation_errors, 1);
    assert_eq!(snapshot.retries, 6);
    assert_eq!(snapshot.status_codes.get(&200), Some(&2));
    assert_eq!(snapshot.histogram.len(), 2);
    assert_eq!(
        snapshot.errors,
        vec![
            "request timed out".to_string(),
            "expected body to match pattern `ok`".to_string()
        ]
    );
}

#[test]
fn totals_add_up() {
    let mut stats = StatsCollector::new();

    for status in [200u16, 201, 404, 500, 302, 600] {
        stats.record(nanos(Duration::from_millis(3)), status);
    }
    stats.record_error(ErrorCategory::Connection, "refused");

    assert_eq!(
        stats.total_requests(),
        stats.successful_requests() + stats.total_errors()
    );
    assert_eq!(stats.histogram().len(), 6);
}

#[test]
fn error_counts_default_and_percentiles_default_are_zero() {
    assert_eq!(ErrorCounts::default().total(), 0);
    assert_eq!(Percentiles::default().p999, 0);
}

#[test]
fn format_number_groups_thousands() {
    assert_eq!(format_number(0), "0");
    assert_eq!(format_number(999), "999");
    assert_eq!(format_number(1_234), "1,234");
    assert_eq!(format_number(1_234_567), "1,234,567");
}

#[test]
fn formatted_numbers_read_back_as_their_digits() {
    for value in [0u64, 7, 42, 999, 1_000, 12_345, 999_999, 1_000_000, u64::MAX] {
        let text = format_number(value);
        assert_eq!(text.replace(',', ""), value.to_string());
        let groups: Vec<&str> = text.split(',').collect();
        assert!((1..=3).contains(&groups[0].len()));
        assert!(groups[1..].iter().all(|group| group.len() == 3));
    }
}
