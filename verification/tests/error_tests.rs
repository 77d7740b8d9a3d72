use ddog::error::{classify_failure, convert_datadog_error, AppError, ErrorKind, Resource};

fn parse_error_message(msg: &str) -> AppError {
    if msg.contains("401") || msg.contains("403") || msg.contains("Forbidden") {
        AppError::Auth(format!("Authentication failed: {}", msg))
    } else if msg.contains("400") || msg.contains("Bad Request") {
        AppError::InvalidQuery(msg.to_string())
    } else {
        AppError::Api(msg.to_string())
    }
}

#[test]
fn logs_test_error_parsing_401() {
    let error = parse_error_message("401 Unauthorized");
    assert!(matches!(error, AppError::Auth(_)));
    assert_eq!(error.exit_code(), 2);
}

#[test]
fn logs_test_error_parsing_403() {
    let error = parse_error_message("403 Forbidden");
    assert!(matches!(error, AppError::Auth(_)));
    assert_eq!(error.exit_code(), 2);
}

#[test]
fn logs_test_error_parsing_forbidden() {
    let error = parse_error_message("Forbidden access");
    assert!(matches!(error, AppError::Auth(_)));
    assert_eq!(error.exit_code(), 2);
}

#[test]
fn logs_test_error_parsing_400() {
    let error = parse_error_message("400 Bad Request");
    assert!(matches!(error, AppError::InvalidQuery(_)));
    assert_eq!(error.exit_code(), 4);
}

#[test]
fn logs_test_error_parsing_bad_request() {
    let error = parse_error_message("Bad Request: invalid syntax");
    assert!(matches!(error, AppError::InvalidQuery(_)));
    assert_eq!(error.exit_code(), 4);
}

#[test]
fn logs_test_error_parsing_generic_api_error() {
    let error = parse_error_message("500 Internal Server Error");
    assert!(matches!(error, AppError::Api(_)));
    assert_eq!(error.exit_code(), 3);
}

#[test]
fn logs_test_error_parsing_network_error() {
    let error = parse_error_message("Connection timeout");
    assert!(matches!(error, AppError::Api(_)));
    assert_eq!(error.exit_code(), 3);
}

#[test]
fn search_test_error_parsing_401() {
    let error = parse_error_message("401 Unauthorized");
    assert!(matches!(error, AppError::Auth(_)));
    assert_eq!(error.exit_code(), 2);
}

#[test]
fn search_test_error_parsing_403() {
    let error = parse_error_message("403 Forbidden");
    assert!(matches!(error, AppError::Auth(_)));
    assert_eq!(error.exit_code(), 2);
}

#[test]
fn search_test_error_parsing_forbidden() {
    let error = parse_error_message("Forbidden access");
    assert!(matches!(error, AppError::Auth(_)));
    assert_eq!(error.exit_code(), 2);
}

#[test]
fn search_test_error_parsing_400() {
    let error = parse_error_message("400 Bad Request");
    assert!(matches!(error, AppError::InvalidQuery(_)));
    assert_eq!(error.exit_code(), 4);
}

#[test]
fn search_test_error_parsing_bad_request() {
    let error = parse_error_message("Bad Request: invalid syntax");
    assert!(matches!(error, AppError::InvalidQuery(_)));
    assert_eq!(error.exit_code(), 4);
}

#[test]
fn search_test_error_parsing_generic_api_error() {
    let error = parse_error_message("500 Internal Server Error");
    assert!(matches!(error, AppError::Api(_)));
    assert_eq!(error.exit_code(), 3);
}

#[test]
fn search_test_error_parsing_network_error() {
    let error = parse_error_message("Connection timeout");
    assert!(matches!(error, AppError::Api(_)));
    assert_eq!(error.exit_code(), 3);
}

#[test]
fn every_class_has_its_exit_status() {
    assert_eq!(AppError::Auth(String::new()).exit_code(), 2);
    assert_eq!(AppError::Api(String::new()).exit_code(), 3);
    assert_eq!(AppError::InvalidQuery(String::new()).exit_code(), 4);
    assert_eq!(AppError::Config(String::new()).exit_code(), 5);
    assert_eq!(AppError::Io(String::new()).exit_code(), 6);
    assert_eq!(AppError::Serialization(String::new()).exit_code(), 7);
}

#[test]
fn every_class_has_its_headline() {
    assert_eq!(AppError::Auth("a".to_string()).message(), "Authentication failed: a");
    assert_eq!(AppError::Api("b".to_string()).message(), "API error: b");
    assert_eq!(AppError::InvalidQuery("c".to_string()).message(), "Invalid query: c");
    assert_eq!(AppError::Config("d".to_string()).message(), "Configuration error: d");
    assert_eq!(AppError::Io("e".to_string()).message(), "IO error: e");
    assert_eq!(
        AppError::Serialization("f".to_string()).message(),
        "Serialization error: f"
    );
    assert_eq!(AppError::Io("e".to_string()).error_kind(), ErrorKind::Io);
}

#[test]
fn classification_follows_the_message() {
    let cases = [
        ("401 Unauthorized", 2),
        ("403 Forbidden", 2),
        ("Forbidden access", 2),
        ("400 Bad Request", 4),
        ("Bad Request: invalid syntax", 4),
        ("500 Internal Server Error", 3),
        ("Connection timeout", 3),
        ("", 3),
        ("40", 3),
        ("forbidden", 3),
        ("bad request", 3),
        ("error 4001", 4),
        ("x401", 2),
        ("400 and 401", 2),
        ("400 and 403", 2),
    ];
    for (msg, code) in cases {
        for resource in [Resource::Logs, Resource::Spans, Resource::Metrics] {
            assert_eq!(classify_failure(msg, resource).exit_code(), code, "{}", msg);
        }
        assert_eq!(convert_datadog_error(msg).exit_code(), code, "{}", msg);
    }
}

#[test]
fn authentication_failures_carry_advice() {
    match classify_failure("401 Unauthorized", Resource::Logs) {
        AppError::Auth(m) => assert_eq!(
            m,
            "Authentication failed (401): Invalid API or App key. 401 Unauthorized"
        ),
        other => panic!("unexpected: {:?}", other),
    }
    match classify_failure("403 Forbidden", Resource::Logs) {
        AppError::Auth(m) => assert_eq!(
            m,
            "Access denied (403): Your API key may not have permission to access logs. 403 Forbidden"
        ),
        other => panic!("unexpected: {:?}", other),
    }
    match classify_failure("Forbidden", Resource::Spans) {
        AppError::Auth(m) => assert_eq!(
            m,
            "Access denied (403): Your API key may not have permission to access APM spans. Note: APM spans require different permissions than logs. Ensure your API key has 'APM and Infrastructure' read permissions. Forbidden"
        ),
        other => panic!("unexpected: {:?}", other),
    }
    match convert_datadog_error("got 403") {
        AppError::Auth(m) => assert_eq!(
            m,
            "Access denied (403): Your API key may not have permission to access metrics. got 403"
        ),
        other => panic!("unexpected: {:?}", other),
    }
    match classify_failure("401 and 403", Resource::Metrics) {
        AppError::Auth(m) => assert!(m.starts_with("Authentication failed (401)")),
        other => panic!("unexpected: {:?}", other),
    }
}

#[test]
fn other_failures_carry_the_message_alone() {
    match classify_failure("400 Bad Request", Resource::Logs) {
        AppError::InvalidQuery(m) => assert_eq!(m, "400 Bad Request"),
        other => panic!("unexpected: {:?}", other),
    }
    match classify_failure("Connection timeout", Resource::Spans) {
        AppError::Api(m) => assert_eq!(m, "Connection timeout"),
        other => panic!("unexpected: {:?}", other),
    }
}
