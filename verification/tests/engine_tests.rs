use std::time::Duration;

use clank_cli::engine::{
    EngineConfig, EngineError, RampUpProgress, RampUpState, WorkerPlan,
    calculate_ramp_up_step_count, calculate_ramp_up_step_interval, check_engine_config,
    check_run_duration, error_category, force_quit_window, has_no_remaining_requests,
    join_strings, live_stats_poll_interval, next_request_slot, plan_workers, ramp_up_progress,
    record_outcome,
};
use clank_cli::retry::{
    AttemptOutcome, HttpClientError, HttpErrorKind, HttpResponse, RetryConfig, RetryStats,
    SendStep, after_attempt, check_request_headers, classify_transport_error, request_method,
    retry_count, retry_stats, sends_body, should_retry, should_retry_error, transport_error_prefix,
    HttpMethod,
};
use clank_cli::stats::{ErrorCategory, StatsCollector};
use clank_cli::validation::ValidationConfig;

fn nanos(duration: Duration) -> u64 {
    duration.as_nanos() as u64
}

#[test]
fn ramp_up_step_interval_uses_one_second_for_ten_workers_over_ten_seconds() {
    assert_eq!(
        Duration::from_nanos(calculate_ramp_up_step_interval(10, nanos(Duration::from_secs(10)), 1)),
        Duration::from_secs(1)
    );
}

#[test]
fn ramp_up_step_interval_uses_two_point_five_seconds_for_twenty_workers_step_five() {
    assert_eq!(
        Duration::from_nanos(calculate_ramp_up_step_interval(20, nanos(Duration::from_secs(10)), 5)),
        Duration::from_millis(2_500)
    );
}

#[test]
fn ramp_up_state_progresses_by_step_after_interval() {
    let now = 0u64;
    let mut state = RampUpState::new(10, nanos(Duration::from_secs(10)), 2, now);

    assert_eq!(state.current_workers, 2);
    assert_eq!(state.target_workers, 10);
    assert_eq!(Duration::from_nanos(state.step_interval), Duration::from_secs(2));

    assert_eq!(state.advance(now + nanos(Duration::from_secs(1)), 2), 0);
    assert_eq!(state.current_workers, 2);

    assert_eq!(state.advance(now + nanos(Duration::from_secs(2)), 2), 2);
    assert_eq!(state.current_workers, 4);

    assert_eq!(state.advance(now + nanos(Duration::from_secs(4)), 2), 2);
    assert_eq!(state.current_workers, 6);
}

#[test]
fn ramp_up_step_at_least_concurrency_starts_all_workers_in_single_step() {
    let state = RampUpState::new(10, nanos(Duration::from_secs(10)), 20, 0);

    assert_eq!(state.current_workers, 10);
    assert_eq!(state.target_workers, 10);
    assert_eq!(Duration::from_nanos(state.step_interval), Duration::from_secs(10));
}

#[test]
fn ramp_up_stops_at_target() {
    let second = nanos(Duration::from_secs(1));
    let mut state = RampUpState::new(5, 3 * second, 2, 0);

    assert_eq!(state.current_workers, 2);
    assert_eq!(state.step_interval, second);
    assert_eq!(state.advance(second, 2), 2);
    assert_eq!(state.advance(2 * second, 2), 1);
    assert_eq!(state.current_workers, 5);
    assert_eq!(state.advance(10 * second, 2), 0);
    assert_eq!(state.current_workers, 5);
}

#[test]
fn ramp_up_step_count_covers_target() {
    assert_eq!(calculate_ramp_up_step_count(0, 3), 0);
    assert_eq!(calculate_ramp_up_step_count(10, 3), 4);
    assert_eq!(calculate_ramp_up_step_count(9, 3), 3);
    assert_eq!(calculate_ramp_up_step_interval(0, 1_000, 1), 1_000);
}

#[test]
fn ramp_up_progress_applies_worker_counts_to_live_stats() {
    let mut progress = RampUpProgress::new(3, 10);

    assert_eq!(progress.current_workers, 3);
    assert_eq!(progress.target_workers, 10);

    progress.set_current_workers(10);

    assert_eq!(progress.current_workers, 10);
    assert_eq!(progress.target_workers, 10);

    progress.set_current_workers(12);
    assert_eq!(progress.current_workers, 10);
}

#[test]
fn live_snapshot_with_ramp_up_includes_worker_counts() {
    let progress = RampUpProgress::new(5, 20);

    assert_eq!(progress.current_workers, 5);
    assert_eq!(progress.target_workers, 20);
}

#[test]
fn force_quit_window_is_two_seconds() {
    assert_eq!(Duration::from_millis(force_quit_window()), Duration::from_secs(2));
}

#[test]
fn engine_config_defaults_to_keep_alive() {
    let config = EngineConfig::new("http://example.com".to_string(), 1);

    assert!(config.keep_alive);
}

#[test]
fn engine_config_defaults_to_retry_disabled() {
    let config = EngineConfig::new("http://example.com".to_string(), 1);

    assert_eq!(config.retry, 0);
    assert_eq!(config.retry_delay, 0);
}

#[test]
fn engine_config_defaults() {
    let config = EngineConfig::new("http://example.com".to_string(), 4);

    assert_eq!(config.method, "GET");
    assert_eq!(config.concurrency, 4);
    assert_eq!(Duration::from_millis(config.timeout), Duration::from_secs(10));
    assert_eq!(config.ramp_up_step, 1);
    assert!(config.ramp_up.is_none());
}

#[test]
fn zero_live_stats_interval_returns_error() {
    let config = EngineConfig::new("http://example.com".to_string(), 1);

    assert_eq!(
        check_engine_config(&config, 0),
        Err(EngineError::ZeroLiveStatsInterval)
    );
}

#[test]
fn zero_concurrency_returns_error() {
    let config = EngineConfig::new("http://example.com".to_string(), 0);

    assert_eq!(
        check_engine_config(&config, 1_000_000_000).unwrap_err().to_string(),
        "concurrency must be greater than 0"
    );
}

#[test]
fn engine_rejects_blank_url_and_zero_step() {
    let blank = EngineConfig::new("   ".to_string(), 1);
    assert_eq!(check_engine_config(&blank, 1_000_000_000), Err(EngineError::EmptyUrl));

    let mut zero_step = EngineConfig::new("http://example.com".to_string(), 1);
    zero_step.ramp_up_step = 0;
    assert_eq!(
        check_engine_config(&zero_step, 1_000_000_000),
        Err(EngineError::ZeroRampUpStep)
    );

    assert_eq!(
        check_engine_config(&EngineConfig::new("http://example.com".to_string(), 1), 1_000_000_000),
        Ok(())
    );
    assert_eq!(
        check_run_duration(0).unwrap_err().to_string(),
        "duration must be greater than 0"
    );
    assert!(check_run_duration(5).is_ok());
}

#[test]
fn no_ramp_up_spawns_full_concurrency_immediately() {
    let config = EngineConfig::new("http://example.com".to_string(), 3);

    assert_eq!(plan_workers(&config, 0), WorkerPlan::Batch(3));
    assert_eq!(ramp_up_progress(&config), None);
}

#[test]
fn zero_ramp_up_is_treated_as_no_ramp_up() {
    let mut config = EngineConfig::new("http://example.com".to_string(), 3);
    config.ramp_up = Some(0);

    assert_eq!(plan_workers(&config, 0), WorkerPlan::Batch(3));
    assert_eq!(ramp_up_progress(&config), None);
}

#[test]
fn ramp_up_plan_starts_one_step() {
    let mut config = EngineConfig::new("http://example.com".to_string(), 10);
    config.ramp_up = Some(10_000);
    config.ramp_up_step = 2;

    match plan_workers(&config, 7) {
        WorkerPlan::RampUp(state) => {
            assert_eq!(state.current_workers, 2);
            assert_eq!(state.target_workers, 10);
            assert_eq!(state.step_interval, nanos(Duration::from_secs(2)));
            assert_eq!(state.last_ramp_up, 7);
        }
        WorkerPlan::Batch(_) => panic!("expected a ramp-up"),
    }
    assert_eq!(
        ramp_up_progress(&config),
        Some(RampUpProgress { current_workers: 2, target_workers: 10 })
    );
}

#[test]
fn request_slots_run_out() {
    assert_eq!(next_request_slot(2), Some(1));
    assert_eq!(next_request_slot(0), None);
    assert!(has_no_remaining_requests(Some(0)));
    assert!(!has_no_remaining_requests(Some(3)));
    assert!(!has_no_remaining_requests(None));
}

#[test]
fn live_stats_poll_interval_is_at_most_100ms() {
    assert_eq!(live_stats_poll_interval(1_000_000_000), 100_000_000);
    assert_eq!(live_stats_poll_interval(20), 20);
}

#[test]
fn error_categories_follow_error_kinds() {
    assert_eq!(error_category(HttpErrorKind::Timeout), ErrorCategory::Timeout);
    assert_eq!(error_category(HttpErrorKind::Connection), ErrorCategory::Connection);
    assert_eq!(error_category(HttpErrorKind::Request), ErrorCategory::Other);
    assert_eq!(error_category(HttpErrorKind::UnsupportedMethod), ErrorCategory::Other);
    assert_eq!(error_category(HttpErrorKind::Other), ErrorCategory::Other);
}

#[test]
fn join_strings_separates_failures() {
    let parts = vec!["a".to_string(), "b".to_string(), "c".to_string()];

    assert_eq!(join_strings(&parts, "; "), "a; b; c");
    assert_eq!(join_strings(&Vec::new(), "; "), "");
}

fn response(status: u16, body: &str, attempts: usize) -> HttpResponse {
    HttpResponse {
        status,
        headers: vec![("content-type".to_string(), Some("application/json".to_string()))],
        body: body.to_string(),
        latency: nanos(Duration::from_millis(5)),
        retry_stats: retry_stats(attempts),
    }
}

#[test]
fn record_outcome_counts_passing_response_with_retries() {
    let mut stats = StatsCollector::new();

    record_outcome(&mut stats, &Ok(response(200, "ok", 3)), &ValidationConfig::new());

    let snapshot = stats.snapshot(0);
    assert_eq!(snapshot.total_requests, 1);
    assert_eq!(snapshot.successful_requests, 1);
    assert_eq!(snapshot.retries, 2);
    assert_eq!(snapshot.validation_errors, 0);
    assert_eq!(snapshot.status_codes.get(&200), Some(&1));
}

#[test]
fn record_outcome_counts_failed_validation_as_error() {
    let mut stats = StatsCollector::new();
    let validation = ValidationConfig {
        expect_status: Some(vec![200]),
        expect_body: Some("ok".to_string()),
        expect_headers: None,
    };

    record_outcome(&mut stats, &Ok(response(404, "not found", 1)), &validation);

    let snapshot = stats.snapshot(0);
    assert_eq!(snapshot.total_requests, 1);
    assert_eq!(snapshot.successful_requests, 0);
    assert_eq!(snapshot.total_errors, 1);
    assert_eq!(snapshot.validation_errors, 1);
    assert_eq!(snapshot.error_counts.other, 1);
    assert_eq!(
        snapshot.errors,
        vec!["expected status [200], got 404; expected body to match pattern `ok`".to_string()]
    );
}

#[test]
fn record_outcome_counts_transport_failure_by_category() {
    let mut stats = StatsCollector::new();
    let error = HttpClientError::new(HttpErrorKind::Timeout, "request timed out: slow".to_string())
        .with_retry_stats(retry_stats(2));

    record_outcome(&mut stats, &Err(error), &ValidationConfig::new());

    let snapshot = stats.snapshot(0);
    assert_eq!(snapshot.total_errors, 1);
    assert_eq!(snapshot.error_counts.timeout, 1);
    assert_eq!(snapshot.retries, 1);
    assert_eq!(snapshot.errors, vec!["request timed out: slow".to_string()]);
}

#[test]
fn request_method_upper_cases_and_rejects_unknown_methods() {
    assert_eq!(request_method("get").unwrap(), HttpMethod::Get);
    assert_eq!(request_method("Options").unwrap(), HttpMethod::Options);
    let error = request_method("trace").unwrap_err();
    assert_eq!(error.kind(), HttpErrorKind::UnsupportedMethod);
    assert_eq!(error.to_string(), "unsupported method: TRACE");
    assert_eq!(error.retry_stats(), RetryStats { total_attempts: 0, retried: false });
    assert!(!sends_body(HttpMethod::Head));
    assert!(sends_body(HttpMethod::Post));
}

#[test]
fn retry_config_disabled_has_no_retries() {
    let retry = RetryConfig::disabled();

    assert_eq!(retry.max_retries, 0);
    assert_eq!(retry.delay, 0);
}

#[test]
fn transport_errors_are_classified_in_order() {
    assert_eq!(classify_transport_error(true, true, true), HttpErrorKind::Timeout);
    assert_eq!(classify_transport_error(false, true, true), HttpErrorKind::Connection);
    assert_eq!(classify_transport_error(false, false, true), HttpErrorKind::Request);
    assert_eq!(classify_transport_error(false, false, false), HttpErrorKind::Other);
    assert_eq!(transport_error_prefix(HttpErrorKind::Timeout), "request timed out: ");
    assert_eq!(transport_error_prefix(HttpErrorKind::Request), "invalid request: ");
}

#[test]
fn retries_follow_the_readme() {
    let retry = RetryConfig { max_retries: 3, delay: 100 };

    assert!(should_retry(retry, 1, AttemptOutcome::Responded(503)));
    assert!(!should_retry(retry, 1, AttemptOutcome::Responded(404)));
    assert!(!should_retry(retry, 1, AttemptOutcome::Responded(200)));
    assert!(should_retry(retry, 3, AttemptOutcome::Failed(HttpErrorKind::Connection)));
    assert!(!should_retry(retry, 4, AttemptOutcome::Failed(HttpErrorKind::Timeout)));
    assert!(!should_retry(retry, 1, AttemptOutcome::Failed(HttpErrorKind::Request)));
    assert!(should_retry_error(HttpErrorKind::Timeout));
    assert!(!should_retry_error(HttpErrorKind::Other));
}

#[test]
fn after_attempt_reports_attempts() {
    let retry = RetryConfig { max_retries: 2, delay: 0 };

    assert_eq!(after_attempt(retry, 1, AttemptOutcome::Responded(503)), SendStep::Retry);
    assert_eq!(
        after_attempt(retry, 3, AttemptOutcome::Responded(503)),
        SendStep::Respond(RetryStats { total_attempts: 3, retried: true })
    );
    assert_eq!(
        after_attempt(retry, 1, AttemptOutcome::Failed(HttpErrorKind::Request)),
        SendStep::Fail(RetryStats { total_attempts: 1, retried: false })
    );
    assert_eq!(retry_count(3), 2);
    assert_eq!(retry_count(0), 0);
}

#[test]
fn check_request_headers_names_the_bad_header() {
    let good = vec![("X-Token".to_string(), "abc".to_string())];
    assert!(check_request_headers(&good).is_ok());

    let bad_name = vec![("Bad Name".to_string(), "abc".to_string())];
    let error = check_request_headers(&bad_name).unwrap_err();
    assert_eq!(error.kind(), HttpErrorKind::Request);
    assert_eq!(
        error.to_string(),
        "invalid header name `Bad Name`: invalid HTTP header name"
    );

    let bad_value = vec![("X-Token".to_string(), "a\nb".to_string())];
    assert_eq!(
        check_request_headers(&bad_value).unwrap_err().to_string(),
        "invalid header value for `X-Token`: failed to parse header value"
    );
}

#[test]
fn defaults_are_empty() {
    assert_eq!(RetryConfig::default(), RetryConfig::disabled());
    assert_eq!(RetryStats::default(), RetryStats { total_attempts: 0, retried: false });
    assert_eq!(ValidationConfig::default(), ValidationConfig::new());
    assert_eq!(StatsCollector::default().total_requests(), 0);
}

#[test]
fn request_budget_grants_each_request_once() {
    let mut remaining = 3usize;
    let mut granted = 0usize;
    for _ in 0..5 {
        if let Some(left) = next_request_slot(remaining) {
            remaining = left;
            granted += 1;
        }
    }
    assert_eq!(granted, 3);
    assert_eq!(remaining, 0);
}

#[test]
fn header_names_follow_the_token_rules() {
    let pair = |name: String| vec![(name, "v".to_string())];
    assert!(check_request_headers(&pair("X-Trace_ID.1!#$%&'*+^`|~".to_string())).is_ok());
    assert!(check_request_headers(&pair("a".repeat(65))).is_ok());
    assert!(check_request_headers(&pair("a".repeat(65_535))).is_ok());
    assert!(check_request_headers(&pair("a".repeat(65_536))).is_err());
    assert!(check_request_headers(&pair(String::new())).is_err());
    assert!(check_request_headers(&pair("a:b".to_string())).is_err());
    assert!(check_request_headers(&pair("naïve".to_string())).is_err());
    assert!(check_request_headers(&pair(format!("{}/", "a".repeat(70)))).is_err());
}
