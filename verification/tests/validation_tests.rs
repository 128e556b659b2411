use clank_cli::retry::{HttpResponse, retry_stats};
use clank_cli::validation::{ValidationConfig, header_value, validate_response};

fn response(status: u16, body: &str, headers: Vec<(&str, Option<&str>)>) -> HttpResponse {
    HttpResponse {
        status,
        headers: headers
            .into_iter()
            .map(|(k, v)| (k.to_string(), v.map(|v| v.to_string())))
            .collect(),
        body: body.to_string(),
        latency: 1_000_000,
        retry_stats: retry_stats(1),
    }
}

#[test]
fn validation_passes_when_nothing_is_checked() {
    let result = validate_response(&response(500, "", vec![]), &ValidationConfig::new());

    assert!(result.passed);
    assert!(result.failures.is_empty());
}

#[test]
fn validation_reports_unexpected_status() {
    let validation = ValidationConfig {
        expect_status: Some(vec![200, 201]),
        expect_body: None,
        expect_headers: None,
    };

    let result = validate_response(&response(404, "", vec![]), &validation);

    assert!(!result.passed);
    assert_eq!(result.failures, vec!["expected status [200, 201], got 404"]);
    assert!(validate_response(&response(201, "", vec![]), &validation).passed);
}

#[test]
fn validation_matches_body_pattern_anywhere() {
    let validation = ValidationConfig {
        expect_status: None,
        expect_body: Some(r#""status":"ok""#.to_string()),
        expect_headers: None,
    };

    assert!(validate_response(&response(200, r#"{"status":"ok"}"#, vec![]), &validation).passed);

    let result = validate_response(&response(200, r#"{"status":"down"}"#, vec![]), &validation);
    assert_eq!(
        result.failures,
        vec![r#"expected body to match pattern `"status":"ok"`"#]
    );

    let digits = ValidationConfig {
        expect_status: None,
        expect_body: Some(r"\d+".to_string()),
        expect_headers: None,
    };
    assert!(validate_response(&response(200, "id=42", vec![]), &digits).passed);
}

#[test]
fn validation_reports_invalid_pattern() {
    let validation = ValidationConfig {
        expect_status: None,
        expect_body: Some("(".to_string()),
        expect_headers: None,
    };

    let result = validate_response(&response(200, "x", vec![]), &validation);

    assert!(!result.passed);
    assert_eq!(result.failures.len(), 1);
    assert!(result.failures[0].starts_with("invalid body regex `(`: "));
}

#[test]
fn validation_checks_headers_ignoring_name_case() {
    let validation = ValidationConfig {
        expect_status: None,
        expect_body: None,
        expect_headers: Some(vec![
            ("Content-Type".to_string(), "application/json".to_string()),
            ("X-Trace".to_string(), "1".to_string()),
        ]),
    };

    let result = validate_response(
        &response(200, "", vec![("content-type", Some("text/plain"))]),
        &validation,
    );

    assert_eq!(
        result.failures,
        vec![
            "expected header `Content-Type: application/json`, got `Content-Type: text/plain`",
            "expected header `X-Trace: 1`",
        ]
    );

    let ok = validate_response(
        &response(
            200,
            "",
            vec![("content-type", Some("application/json")), ("x-trace", Some("1"))],
        ),
        &validation,
    );
    assert!(ok.passed);
}

#[test]
fn validation_lists_failures_in_order() {
    let validation = ValidationConfig {
        expect_status: Some(vec![200]),
        expect_body: Some("ok".to_string()),
        expect_headers: Some(vec![("X-Id".to_string(), "7".to_string())]),
    };

    let result = validate_response(&response(500, "fail", vec![]), &validation);

    assert_eq!(
        result.failures,
        vec![
            "expected status [200], got 500",
            "expected body to match pattern `ok`",
            "expected header `X-Id: 7`",
        ]
    );
}

#[test]
fn header_value_takes_first_match_and_unreadable_values_are_absent() {
    let headers = vec![
        ("x-a".to_string(), None),
        ("X-B".to_string(), Some("one".to_string())),
        ("x-b".to_string(), Some("two".to_string())),
    ];

    assert_eq!(header_value(&headers, "x-b"), Some("one".to_string()));
    assert_eq!(header_value(&headers, "X-A"), None);
    assert_eq!(header_value(&headers, "missing"), None);
}
