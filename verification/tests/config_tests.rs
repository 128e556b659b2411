use std::time::Duration;

use clank_cli::config::{
    ClankConfig, OutputFormat, parse_duration, parse_header, parse_output_format, validate_method,
};
use clank_cli::rate_limit::{RateLimitConfig, RatePeriod};

fn millis(value: u128) -> Duration {
    Duration::from_secs((value / 1000) as u64) + Duration::from_millis((value % 1000) as u64)
}

#[test]
fn parse_duration_supports_seconds() {
    assert_eq!(millis(parse_duration("5s").unwrap()), Duration::from_secs(5));
    assert_eq!(millis(parse_duration("30s").unwrap()), Duration::from_secs(30));
}

#[test]
fn parse_duration_supports_minutes() {
    assert_eq!(millis(parse_duration("5m").unwrap()), Duration::from_secs(300));
}

#[test]
fn parse_duration_supports_hours() {
    assert_eq!(millis(parse_duration("1h").unwrap()), Duration::from_secs(3600));
}

#[test]
fn parse_duration_supports_composite_duration() {
    assert_eq!(millis(parse_duration("1h30m").unwrap()), Duration::from_secs(5400));
    assert_eq!(millis(parse_duration("1h30m5s").unwrap()), Duration::from_secs(5405));
}

#[test]
fn parse_duration_rejects_invalid_input() {
    assert!(parse_duration("").is_err());
    assert!(parse_duration("abc").is_err());
    assert!(parse_duration("5").is_err());
    assert!(parse_duration("5d").is_err());
    assert!(parse_duration("0s").is_err());
}

#[test]
fn parse_duration_supports_milliseconds() {
    assert_eq!(parse_duration("100ms").unwrap(), 100);
    assert_eq!(parse_duration("1s500ms").unwrap(), 1500);
}

#[test]
fn parse_duration_error_messages_name_the_input() {
    assert_eq!(
        parse_duration("").unwrap_err().to_string(),
        "duration cannot be empty"
    );
    assert_eq!(
        parse_duration("5d").unwrap_err().to_string(),
        "unsupported duration unit: d"
    );
    assert_eq!(
        parse_duration("0s").unwrap_err().to_string(),
        "duration must be greater than 0"
    );
}

#[test]
fn validate_method_accepts_supported_methods() {
    assert_eq!(validate_method("GET").unwrap(), "GET");
    assert_eq!(validate_method("post").unwrap(), "POST");
    assert_eq!(validate_method(" Put ").unwrap(), "PUT");
    assert_eq!(validate_method("DELETE").unwrap(), "DELETE");
    assert_eq!(validate_method("PATCH").unwrap(), "PATCH");
    assert_eq!(validate_method("HEAD").unwrap(), "HEAD");
    assert_eq!(validate_method("OPTIONS").unwrap(), "OPTIONS");
}

#[test]
fn validate_method_rejects_unsupported_methods() {
    let error = validate_method("trace").unwrap_err();

    assert_eq!(error.to_string(), "unsupported method: TRACE");
    assert!(validate_method("").is_err());
    assert!(validate_method("CONNECT").is_err());
}

#[test]
fn parse_header_accepts_key_value_format() {
    let header = parse_header("Authorization: Bearer token123").unwrap();

    assert_eq!(header.0, "Authorization");
    assert_eq!(header.1, "Bearer token123");
}

#[test]
fn parse_header_trims_key_and_value() {
    let header = parse_header(" Content-Type : application/json ").unwrap();

    assert_eq!(header.0, "Content-Type");
    assert_eq!(header.1, "application/json");
}

#[test]
fn parse_header_rejects_invalid_input() {
    assert!(parse_header("").is_err());
    assert!(parse_header("Authorization").is_err());
    assert!(parse_header(": value").is_err());
}

#[test]
fn parse_header_keeps_colons_in_the_value() {
    let header = parse_header("X-Time: 12:30:00").unwrap();

    assert_eq!(header.0, "X-Time");
    assert_eq!(header.1, "12:30:00");
}

#[test]
fn output_format_accepts_supported_values() {
    assert_eq!(parse_output_format("text").unwrap(), OutputFormat::Text);
    assert_eq!(parse_output_format("json").unwrap(), OutputFormat::Json);
    assert_eq!(parse_output_format("csv").unwrap(), OutputFormat::Csv);
    assert_eq!(parse_output_format("TEXT").unwrap(), OutputFormat::Text);
    assert_eq!(parse_output_format(" Json ").unwrap(), OutputFormat::Json);
}

#[test]
fn output_format_rejects_unsupported_values() {
    assert!(parse_output_format("").is_err());
    assert!(parse_output_format("xml").is_err());
    assert!(parse_output_format("table").is_err());
}

#[test]
fn output_format_accepts_html() {
    assert_eq!(parse_output_format("html").unwrap(), OutputFormat::Html);
}

fn valid_config() -> ClankConfig {
    ClankConfig {
        url: "http://localhost:8080".to_string(),
        method: "GET".to_string(),
        body: None,
        body_file: None,
        content_type: None,
        concurrency: 10,
        timeout_secs: 30,
        headers: vec!["Authorization: Bearer token".to_string()],
        insecure: false,
        output: None,
        rate_limit: Some(RateLimitConfig { rate: 10, period: RatePeriod::Second }),
    }
}

#[test]
fn clank_config_validate_accepts_valid_config() {
    assert!(valid_config().validate().is_ok());
}

#[test]
fn clank_config_validate_rejects_each_fault() {
    let mut config = valid_config();
    config.url = "  ".to_string();
    assert_eq!(config.validate().unwrap_err().to_string(), "config url cannot be empty");

    let mut config = valid_config();
    config.concurrency = 0;
    assert_eq!(
        config.validate().unwrap_err().to_string(),
        "config concurrency must be greater than 0"
    );

    let mut config = valid_config();
    config.timeout_secs = 0;
    assert_eq!(
        config.validate().unwrap_err().to_string(),
        "config timeout_secs must be greater than 0"
    );

    let mut config = valid_config();
    config.body = Some("x".to_string());
    config.body_file = Some("body.json".to_string());
    assert_eq!(
        config.validate().unwrap_err().to_string(),
        "config body and body_file cannot be used together"
    );

    let mut config = valid_config();
    config.content_type = Some(" ".to_string());
    assert_eq!(
        config.validate().unwrap_err().to_string(),
        "config content_type cannot be empty"
    );

    let mut config = valid_config();
    config.output = Some("xml".to_string());
    assert_eq!(
        config.validate().unwrap_err().to_string(),
        "invalid config output format"
    );

    let mut config = valid_config();
    config.method = "trace".to_string();
    assert_eq!(config.validate().unwrap_err().to_string(), "invalid config method");

    let mut config = valid_config();
    config.headers = vec!["Broken".to_string()];
    assert_eq!(
        config.validate().unwrap_err().to_string(),
        "invalid config header: Broken"
    );
}

#[test]
fn parse_duration_accepts_totals_up_to_the_longest_duration() {
    assert_eq!(
        millis(parse_duration("18446744073709552s").unwrap()),
        Duration::from_secs(18_446_744_073_709_552)
    );
    assert_eq!(
        millis(parse_duration("18446744073709551615s").unwrap()),
        Duration::from_secs(u64::MAX)
    );
    assert_eq!(
        parse_duration("18446744073709551615s999ms").unwrap(),
        18_446_744_073_709_551_615_999
    );
    assert_eq!(
        parse_duration("18446744073709551615s1000ms").unwrap_err().to_string(),
        "duration is too large"
    );
    assert_eq!(
        parse_duration("18446744073709551615s1s").unwrap_err().to_string(),
        "duration is too large"
    );
    assert_eq!(
        parse_duration("307445734561825861m").unwrap_err().to_string(),
        "duration is too large"
    );
    assert_eq!(
        parse_duration("18446744073709551616s").unwrap_err().to_string(),
        "invalid duration number: 18446744073709551616"
    );
}

#[test]
fn parse_duration_of_two_texts_together_adds_them() {
    let one = parse_duration("10000000000000000s").unwrap();
    let both = parse_duration("10000000000000000s10000000000000000s").unwrap();
    assert_eq!(both, one + one);
    assert_eq!(
        parse_duration("1h").unwrap() + parse_duration("30m5s").unwrap(),
        parse_duration("1h30m5s").unwrap()
    );
}
