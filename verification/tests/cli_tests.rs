use std::time::Duration;

use clank_cli::cli::{
    BodySource, Cli, check_arguments, config_path, parse_expect_status, parse_ramp_up_arg,
    parse_retry_delay_arg, resolve_body, resolve_concurrency, resolve_headers,
    resolve_insecure, resolve_keep_alive, resolve_method, resolve_output_format,
    resolve_ramp_up, resolve_ramp_up_step, resolve_rate_limit, resolve_timeout_secs,
    resolve_url, resolve_validation, body_is_missing,
};
use clank_cli::config::{ClankConfig, OutputFormat};
use clank_cli::rate_limit::{RateLimitConfig, RatePeriod, parse_rate_limit};

fn millis(value: u128) -> Duration {
    Duration::from_secs((value / 1000) as u64) + Duration::from_millis((value % 1000) as u64)
}

fn cli() -> Cli {
    Cli {
        target_url: None,
        url: None,
        config: None,
        no_config: false,
        method: None,
        body: None,
        body_file: None,
        content_type: None,
        headers: Vec::new(),
        expect_status: None,
        expect_body: None,
        expect_headers: Vec::new(),
        concurrency: None,
        rate_limit: None,
        requests: None,
        duration: None,
        ramp_up: None,
        ramp_up_step: 1,
        retry: 0,
        retry_delay: 0,
        timeout_secs: None,
        output: None,
        insecure: false,
        keep_alive: false,
        no_keep_alive: false,
        quiet: false,
        stats_interval_ms: 1_000,
        no_color: false,
    }
}

fn config() -> ClankConfig {
    ClankConfig {
        url: "http://config.test".to_string(),
        method: "POST".to_string(),
        body: Some("from-config".to_string()),
        body_file: None,
        content_type: Some("application/json".to_string()),
        concurrency: 20,
        timeout_secs: 30,
        headers: vec!["Authorization: Bearer config".to_string()],
        insecure: true,
        output: Some("json".to_string()),
        rate_limit: Some(RateLimitConfig {
            rate: 100,
            period: RatePeriod::Second,
        }),
    }
}

fn pair(key: &str, value: &str) -> (String, String) {
    (key.to_string(), value.to_string())
}

#[test]
fn resolve_output_format_prefers_cli_over_config() {
    let mut cli = cli();
    cli.output = Some(OutputFormat::Csv);

    assert_eq!(
        resolve_output_format(&cli, Some(&config())).unwrap(),
        OutputFormat::Csv
    );
}

#[test]
fn resolve_output_format_uses_config_when_cli_missing() {
    assert_eq!(
        resolve_output_format(&cli(), Some(&config())).unwrap(),
        OutputFormat::Json
    );
}

#[test]
fn resolve_output_format_uses_text_default() {
    assert_eq!(resolve_output_format(&cli(), None).unwrap(), OutputFormat::Text);
}

#[test]
fn resolve_output_format_rejects_invalid_config_value() {
    let mut config = config();
    config.output = Some("xml".to_string());

    assert!(resolve_output_format(&cli(), Some(&config)).is_err());
}

#[test]
fn resolve_url_prefers_positional_cli_url_over_config() {
    let mut cli = cli();
    cli.target_url = Some("http://cli.test".to_string());

    assert_eq!(resolve_url(&cli, Some(&config())).unwrap(), "http://cli.test");
}

#[test]
fn resolve_url_prefers_named_cli_url_over_config() {
    let mut cli = cli();
    cli.url = Some("http://cli.test".to_string());

    assert_eq!(resolve_url(&cli, Some(&config())).unwrap(), "http://cli.test");
}

#[test]
fn resolve_url_uses_config_when_cli_url_missing() {
    assert_eq!(resolve_url(&cli(), Some(&config())).unwrap(), "http://config.test");
}

#[test]
fn resolve_url_rejects_duplicate_cli_urls() {
    let mut cli = cli();
    cli.target_url = Some("http://positional.test".to_string());
    cli.url = Some("http://named.test".to_string());

    assert!(resolve_url(&cli, Some(&config())).is_err());
}

#[test]
fn resolve_url_requires_some_url() {
    assert_eq!(
        resolve_url(&cli(), None).unwrap_err().to_string(),
        "target URL is required. Usage: clank-cli <URL> -c 10 -d 5s"
    );
}

#[test]
fn resolve_method_prefers_cli_over_config() {
    let mut cli = cli();
    cli.method = Some("put".to_string());

    assert_eq!(resolve_method(&cli, Some(&config())).unwrap(), "PUT");
}

#[test]
fn resolve_method_uses_config_when_cli_missing() {
    assert_eq!(resolve_method(&cli(), Some(&config())).unwrap(), "POST");
}

#[test]
fn resolve_method_uses_default_when_cli_and_config_missing() {
    assert_eq!(resolve_method(&cli(), None).unwrap(), "GET");
}

#[test]
fn resolve_body_prefers_cli_over_config() {
    let mut cli = cli();
    cli.body = Some("from-cli".to_string());

    assert_eq!(
        resolve_body(&cli, Some(&config())).unwrap(),
        BodySource::Inline("from-cli".to_string())
    );
}

#[test]
fn resolve_body_rejects_body_and_body_file_together() {
    let mut cli = cli();
    cli.body = Some("raw-body".to_string());
    cli.body_file = Some("request.json".to_string());

    let error = resolve_body(&cli, None).unwrap_err();

    assert_eq!(
        error.to_string(),
        "use either --body or --body-file, not both"
    );
}

#[test]
fn resolve_body_names_the_config_body_file() {
    let mut config = config();
    config.body = None;
    config.body_file = Some("config-body.json".to_string());

    assert_eq!(
        resolve_body(&cli(), Some(&config)).unwrap(),
        BodySource::File("config-body.json".to_string())
    );
    assert_eq!(resolve_body(&cli(), None).unwrap(), BodySource::Absent);
}

#[test]
fn resolve_headers_prefers_cli_headers_but_keeps_config_content_type() {
    let mut cli = cli();
    cli.headers = vec!["Authorization: Bearer cli".to_string()];

    let headers = resolve_headers(&cli, Some(&config())).unwrap();

    assert_eq!(
        headers,
        vec![
            pair("Authorization", "Bearer cli"),
            pair("Content-Type", "application/json"),
        ]
    );
}

#[test]
fn resolve_headers_uses_config_when_cli_missing() {
    let headers = resolve_headers(&cli(), Some(&config())).unwrap();

    assert_eq!(
        headers,
        vec![
            pair("Authorization", "Bearer config"),
            pair("Content-Type", "application/json"),
        ]
    );
}

#[test]
fn resolve_concurrency_prefers_cli_over_config() {
    let mut cli = cli();
    cli.concurrency = Some(50);

    assert_eq!(resolve_concurrency(&cli, Some(&config())), 50);
}

#[test]
fn resolve_timeout_prefers_cli_over_config() {
    let mut cli = cli();
    cli.timeout_secs = Some(99);

    assert_eq!(resolve_timeout_secs(&cli, Some(&config())), 99);
}

#[test]
fn resolve_insecure_uses_config_when_cli_missing() {
    assert!(resolve_insecure(&cli(), Some(&config())));
}

#[test]
fn resolve_insecure_prefers_cli_true() {
    let mut cli = cli();
    cli.insecure = true;

    assert!(resolve_insecure(&cli, None));
}

#[test]
fn resolve_headers_cli_replaces_config_headers_but_keeps_config_content_type() {
    let mut cli = cli();

    cli.headers = vec![
        "Authorization: Bearer cli".to_string(),
        "X-Source: cli".to_string(),
    ];

    let headers = resolve_headers(&cli, Some(&config())).unwrap();

    assert_eq!(
        headers,
        vec![
            pair("Authorization", "Bearer cli"),
            pair("X-Source", "cli"),
            pair("Content-Type", "application/json"),
        ]
    );
}

#[test]
fn resolve_headers_applies_cli_content_type() {
    let mut cli = cli();
    cli.content_type = Some("application/json".to_string());

    let headers = resolve_headers(&cli, None).unwrap();

    assert_eq!(headers, vec![pair("Content-Type", "application/json")]);
}

#[test]
fn resolve_headers_content_type_overrides_duplicate_header() {
    let mut cli = cli();
    cli.headers = vec!["Content-Type: text/plain".to_string()];
    cli.content_type = Some("application/json".to_string());

    let headers = resolve_headers(&cli, None).unwrap();

    assert_eq!(headers, vec![pair("Content-Type", "application/json")]);
}

#[test]
fn resolve_headers_preserves_explicit_content_type_header_without_flag() {
    let mut cli = cli();
    cli.headers = vec!["Content-Type: text/plain".to_string()];

    let headers = resolve_headers(&cli, Some(&config())).unwrap();

    assert_eq!(headers, vec![pair("Content-Type", "text/plain")]);
}

#[test]
fn resolve_headers_cli_non_content_type_header_keeps_config_content_type() {
    let mut cli = cli();
    cli.headers = vec!["Accept: application/json".to_string()];

    let headers = resolve_headers(&cli, Some(&config())).unwrap();

    assert_eq!(
        headers,
        vec![
            pair("Accept", "application/json"),
            pair("Content-Type", "application/json"),
        ]
    );
}

#[test]
fn resolve_headers_rejects_empty_content_type() {
    let mut cli = cli();
    cli.content_type = Some(" ".to_string());

    assert!(resolve_headers(&cli, None).is_err());
}

#[test]
fn resolve_rate_limit_prefers_cli_over_config() {
    let mut cli = cli();
    cli.rate_limit = Some(RateLimitConfig {
        rate: 10,
        period: RatePeriod::Second,
    });

    assert_eq!(
        resolve_rate_limit(&cli, Some(&config())),
        Some(RateLimitConfig {
            rate: 10,
            period: RatePeriod::Second,
        })
    );
}

#[test]
fn resolve_rate_limit_uses_config_when_cli_missing() {
    assert_eq!(
        resolve_rate_limit(&cli(), Some(&config())),
        Some(RateLimitConfig {
            rate: 100,
            period: RatePeriod::Second,
        })
    );
}

#[test]
fn resolve_rate_limit_uses_none_when_cli_and_config_missing() {
    assert_eq!(resolve_rate_limit(&cli(), None), None);
}

#[test]
fn parse_rate_limit_arg_accepts_supported_format() {
    assert_eq!(
        parse_rate_limit("5000/m").unwrap(),
        RateLimitConfig {
            rate: 5000,
            period: RatePeriod::Minute,
        }
    );
}

#[test]
fn parse_rate_limit_arg_rejects_invalid_format() {
    assert!(parse_rate_limit("10/d").is_err());
}

#[test]
fn resolve_ramp_up_uses_none_when_cli_missing() {
    assert_eq!(resolve_ramp_up(&cli()), None);
}

#[test]
fn resolve_ramp_up_uses_cli_value() {
    let mut cli = cli();
    cli.ramp_up = Some(Duration::from_secs(10).as_millis());

    assert_eq!(
        resolve_ramp_up(&cli).map(millis),
        Some(Duration::from_secs(10))
    );
}

#[test]
fn resolve_ramp_up_treats_zero_as_none() {
    let mut cli = cli();
    cli.ramp_up = Some(0);

    assert_eq!(resolve_ramp_up(&cli), None);
}

#[test]
fn resolve_ramp_up_step_defaults_to_one() {
    assert_eq!(resolve_ramp_up_step(&cli()), 1);
}

#[test]
fn resolve_ramp_up_step_uses_cli_value() {
    let mut cli = cli();
    cli.ramp_up_step = 5;

    assert_eq!(resolve_ramp_up_step(&cli), 5);
}

#[test]
fn resolve_keep_alive_defaults_to_true() {
    assert!(resolve_keep_alive(&cli()));
}

#[test]
fn resolve_keep_alive_uses_explicit_keep_alive() {
    let mut cli = cli();
    cli.keep_alive = true;

    assert!(resolve_keep_alive(&cli));
}

#[test]
fn resolve_keep_alive_uses_no_keep_alive() {
    let mut cli = cli();
    cli.no_keep_alive = true;

    assert!(!resolve_keep_alive(&cli));
}

#[test]
fn parse_retry_delay_arg_accepts_milliseconds() {
    assert_eq!(
        millis(parse_retry_delay_arg("100ms").unwrap()),
        Duration::from_millis(100)
    );

    assert_eq!(
        millis(parse_retry_delay_arg("500ms").unwrap()),
        Duration::from_millis(500)
    );
}

#[test]
fn parse_retry_delay_arg_accepts_zero() {
    assert_eq!(
        millis(parse_retry_delay_arg("0ms").unwrap()),
        Duration::ZERO
    );

    assert_eq!(
        millis(parse_retry_delay_arg("0").unwrap()),
        Duration::ZERO
    );
}

#[test]
fn parse_retry_delay_arg_rejects_invalid_duration() {
    assert!(parse_retry_delay_arg("10d").is_err());
}

#[test]
fn parse_ramp_up_arg_accepts_regular_duration() {
    assert_eq!(
        millis(parse_ramp_up_arg("10s").unwrap()),
        Duration::from_secs(10)
    );
}

#[test]
fn parse_ramp_up_arg_accepts_zero_as_disabled() {
    assert_eq!(
        millis(parse_ramp_up_arg("0s").unwrap()),
        Duration::ZERO
    );

    assert_eq!(
        millis(parse_ramp_up_arg("0").unwrap()),
        Duration::ZERO
    );
}

#[test]
fn parse_ramp_up_arg_rejects_invalid_duration() {
    assert!(parse_ramp_up_arg("10d").is_err());
}

#[test]
fn parse_expect_status_accepts_single_status() {
    assert_eq!(parse_expect_status("200").unwrap(), vec![200]);
}

#[test]
fn parse_expect_status_accepts_multiple_statuses() {
    assert_eq!(parse_expect_status("200,201,204").unwrap(), vec![200, 201, 204]);
}

#[test]
fn parse_expect_status_rejects_non_numeric_status() {
    assert!(parse_expect_status("ok").is_err());
}

#[test]
fn parse_expect_status_rejects_out_of_range_status() {
    assert!(parse_expect_status("99").is_err());
    assert!(parse_expect_status("600").is_err());
}

#[test]
fn resolve_validation_builds_validation_config() {
    let mut cli = cli();
    cli.expect_status = Some("200,201".to_string());
    cli.expect_body = Some(r#""status":"ok""#.to_string());
    cli.expect_headers = vec!["Content-Type: application/json".to_string()];

    let validation = resolve_validation(&cli).unwrap();

    assert_eq!(validation.expect_status, Some(vec![200, 201]));
    assert_eq!(validation.expect_body, Some(r#""status":"ok""#.to_string()));
    assert_eq!(
        validation.expect_headers,
        Some(vec![pair("Content-Type", "application/json")])
    );
}

#[test]
fn check_arguments_refuses_conflicting_flags() {
    let mut both = cli();
    both.requests = Some(10);
    both.duration = Some(1_000);
    assert_eq!(
        check_arguments(&both).unwrap_err().to_string(),
        "use either --requests or --duration, not both"
    );

    let mut config_conflict = cli();
    config_conflict.config = Some("clank.yaml".to_string());
    config_conflict.no_config = true;
    assert_eq!(
        check_arguments(&config_conflict).unwrap_err().to_string(),
        "use either --config or --no-config, not both"
    );

    let mut zero_interval = cli();
    zero_interval.stats_interval_ms = 0;
    assert!(check_arguments(&zero_interval).is_err());

    assert!(check_arguments(&cli()).is_ok());
}

#[test]
fn config_path_defaults_to_clank_yaml() {
    assert_eq!(config_path(&cli()), Some("clank.yaml".to_string()));

    let mut no_config = cli();
    no_config.no_config = true;
    assert_eq!(config_path(&no_config), None);
}

#[test]
fn body_is_missing_only_for_methods_that_send_one() {
    assert!(body_is_missing("POST", false));
    assert!(!body_is_missing("POST", true));
    assert!(!body_is_missing("GET", false));
}

#[test]
fn duration_arguments_quote_the_trimmed_input() {
    assert_eq!(
        parse_ramp_up_arg("  abc  ").unwrap_err().to_string(),
        "invalid duration format: abc"
    );
    assert_eq!(
        parse_retry_delay_arg(" 5 ").unwrap_err().to_string(),
        "missing duration unit in: 5"
    );
    assert_eq!(parse_ramp_up_arg("18446744073709551615s").unwrap(), 18_446_744_073_709_551_615_000);
}
