use std::collections::BTreeMap;
use std::time::Duration;

use clank_cli::rate_limit::{RateLimitConfig, RatePeriod};
use clank_cli::report::{
    build_validation_report, error_breakdown_points, escape_script_json, latency_buckets,
    latency_histogram_counts, rate_limit_label, report_file_name, status_code_counts,
    status_code_points,
};
use clank_cli::stats::ErrorCounts;
use clank_cli::validation::ValidationConfig;

fn micros(duration: Duration) -> u64 {
    duration.as_micros() as u64
}

#[test]
fn latency_buckets_include_all_latency_samples() {
    let latencies = vec![
        micros(Duration::from_millis(10)),
        micros(Duration::from_millis(75)),
        micros(Duration::from_millis(200)),
        micros(Duration::from_millis(300)),
        micros(Duration::from_millis(750)),
        micros(Duration::from_millis(1_500)),
    ];

    let buckets = latency_buckets(&latencies);
    let total = buckets.iter().map(|bucket| bucket.value).sum::<u64>();

    assert_eq!(total, 6);
}

#[test]
fn latency_buckets_include_their_upper_bounds() {
    let latencies = vec![
        micros(Duration::from_millis(50)),
        micros(Duration::from_millis(100)),
        micros(Duration::from_millis(1_000)),
        micros(Duration::from_millis(1_001)),
    ];

    let values = latency_buckets(&latencies)
        .iter()
        .map(|bucket| bucket.value)
        .collect::<Vec<_>>();

    assert_eq!(values, vec![1, 1, 0, 0, 1, 1]);
}

#[test]
fn latency_histogram_uses_expected_buckets_and_percentages() {
    let latencies = vec![
        micros(Duration::from_micros(500)),
        micros(Duration::from_millis(3)),
        micros(Duration::from_millis(7)),
        micros(Duration::from_millis(20)),
        micros(Duration::from_millis(40)),
        micros(Duration::from_millis(75)),
        micros(Duration::from_millis(200)),
        micros(Duration::from_millis(300)),
        micros(Duration::from_millis(750)),
        micros(Duration::from_millis(1_500)),
    ];

    let buckets = latency_histogram_counts(&latencies);
    let labels = buckets
        .iter()
        .map(|bucket| bucket.label.as_str())
        .collect::<Vec<_>>();
    let counts = buckets.iter().map(|bucket| bucket.value).collect::<Vec<_>>();

    assert_eq!(
        labels,
        vec![
            "<1ms",
            "1-5ms",
            "5-10ms",
            "10-25ms",
            "25-50ms",
            "50-100ms",
            "100-250ms",
            "250-500ms",
            "500ms-1s",
            ">1s"
        ]
    );
    assert_eq!(counts, vec![1, 1, 1, 1, 1, 1, 1, 1, 1, 1]);
    assert!(
        buckets
            .iter()
            .all(|bucket| (bucket.value as f64 / latencies.len() as f64 * 100.0 - 10.0).abs() < 0.0001)
    );
}

#[test]
fn status_codes_come_in_increasing_order() {
    let mut codes = BTreeMap::new();
    codes.insert(503u16, 2u64);
    codes.insert(200u16, 8u64);
    codes.insert(404u16, 1u64);

    assert_eq!(status_code_counts(&codes), vec![(200, 8), (404, 1), (503, 2)]);

    let points = status_code_points(&codes);
    let labels = points.iter().map(|p| p.label.as_str()).collect::<Vec<_>>();
    assert_eq!(labels, vec!["200", "404", "503"]);
    assert_eq!(points[0].value, 8);
}

#[test]
fn error_breakdown_skips_kinds_without_errors() {
    let counts = ErrorCounts {
        timeout: 5,
        connection: 0,
        http_4xx: 10,
        http_5xx: 0,
        http_other: 0,
        other: 1,
    };

    let points = error_breakdown_points(&counts);
    let labels = points.iter().map(|p| p.label.as_str()).collect::<Vec<_>>();

    assert_eq!(labels, vec!["Timeout", "HTTP 4xx", "Other"]);
    assert_eq!(points.iter().map(|p| p.value).collect::<Vec<_>>(), vec![5, 10, 1]);
    assert!(error_breakdown_points(&ErrorCounts::default()).is_empty());
}

#[test]
fn validation_report_lists_expectations_and_failures() {
    let validation = ValidationConfig {
        expect_status: Some(vec![200]),
        expect_body: Some("ok".to_string()),
        expect_headers: Some(vec![(
            "Content-Type".to_string(),
            "application/json".to_string(),
        )]),
    };
    let errors = vec![
        "request timed out".to_string(),
        "expected body to match pattern `ok`".to_string(),
    ];

    let report = build_validation_report(Some(&validation), &errors).expect("report");

    assert_eq!(report.expected_status, Some(vec![200]));
    assert_eq!(report.expected_body, Some("ok".to_string()));
    assert_eq!(report.expected_headers, vec!["Content-Type: application/json"]);
    assert_eq!(
        report.failures,
        vec!["request timed out", "expected body to match pattern `ok`"]
    );
}

#[test]
fn validation_report_is_absent_without_expectations_or_errors() {
    assert!(build_validation_report(None, &Vec::new()).is_none());
    assert!(build_validation_report(Some(&ValidationConfig::new()), &Vec::new()).is_none());

    let report = build_validation_report(None, &vec!["boom".to_string()]).expect("report");
    assert_eq!(report.expected_status, None);
    assert!(report.expected_headers.is_empty());
}

#[test]
fn render_html_report_escapes_script_breakout_sequence() {
    let escaped = escape_script_json(r#"{"errors":["</script><script>alert(1)</script>"]}"#);

    assert!(escaped.contains("<\\/script>"));
    assert!(!escaped.contains("</script><script>alert(1)<\\/script>"));
    assert!(!escaped.contains("</"));
    assert_eq!(escape_script_json("a</b"), "a<\\/b");
    assert_eq!(escape_script_json("<<//"), "<<\\//");
}

#[test]
fn rate_limit_label_defaults_to_unlimited() {
    assert_eq!(rate_limit_label(None), "unlimited");
    assert_eq!(
        rate_limit_label(Some(RateLimitConfig { rate: 100, period: RatePeriod::Second })),
        "100/s"
    );
}

#[test]
fn report_file_name_slugs_the_target_url() {
    assert_eq!(
        report_file_name("http://localhost:8080", 1_700_000_000),
        "http-localhost-8080-report-1700000000.html"
    );
    assert_eq!(
        report_file_name("https://api.example.com/v1/users?id=7", 5),
        "https-api-example-com-v1-users-id-7-report-5.html"
    );
    assert_eq!(report_file_name("::", 0), "-report-0.html");
}
