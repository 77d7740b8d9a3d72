use ddog::logging::VerboseLogger;

#[test]
fn a_silent_logger_gives_no_lines() {
    let logger = VerboseLogger::new(false);
    assert!(!logger.is_enabled());
    assert!(logger.log("hello").is_empty());
    assert!(logger.log_request("logs", "q", "now-1h", "now").is_empty());
    assert!(logger.log_api_endpoint("/api/v2/logs/events", "POST").is_empty());
    assert!(logger.log_config("datadoghq.com", true, true).is_empty());
    assert!(logger.log_error("boom", "ctx").is_empty());
    assert!(logger
        .datadog_url_lines("logs", "q", "now-1h", "now", "datadoghq.com", 1_000)
        .is_empty());
    assert!(logger.log_datadog_url("logs", "q", "now-1h", "now", "datadoghq.com").is_empty());
    assert!(!VerboseLogger::default().is_enabled());
}

#[test]
fn messages_are_marked_as_debug_output() {
    let logger = VerboseLogger::new(true);
    assert!(logger.is_enabled());
    assert_eq!(logger.log("hello"), vec!["[DEBUG] hello".to_string()]);
    assert_eq!(logger.log(""), vec!["[DEBUG] ".to_string()]);
}

#[test]
fn a_request_is_described_in_three_lines() {
    let logger = VerboseLogger::new(true);
    assert_eq!(
        logger.log_request("logs", "service:api", "now-1h", "now"),
        vec![
            "[DEBUG] Resource type: logs".to_string(),
            "[DEBUG] Query: service:api".to_string(),
            "[DEBUG] Time range: now-1h to now".to_string(),
        ]
    );
}

#[test]
fn the_endpoint_is_named_with_its_method() {
    let logger = VerboseLogger::new(true);
    assert_eq!(
        logger.log_api_endpoint("/api/v1/query", "GET"),
        vec!["[DEBUG] API GET /api/v1/query".to_string()]
    );
}

#[test]
fn the_configuration_is_described_without_the_keys() {
    let logger = VerboseLogger::new(true);
    assert_eq!(
        logger.log_config("datadoghq.eu", true, false),
        vec![
            "[DEBUG] Datadog site: datadoghq.eu".to_string(),
            "[DEBUG] API key: set".to_string(),
            "[DEBUG] App key: not set".to_string(),
        ]
    );
}

#[test]
fn an_error_is_reported_with_its_context() {
    let logger = VerboseLogger::new(true);
    assert_eq!(
        logger.log_error("401 Unauthorized", "logs API request"),
        vec!["[DEBUG] Error: 401 Unauthorized (context: logs API request)".to_string()]
    );
}

#[test]
fn offsets_are_read_in_seconds_minutes_hours_and_days() {
    let logger = VerboseLogger::new(false);
    assert_eq!(logger.parse_relative_time("1s"), 1_000);
    assert_eq!(logger.parse_relative_time("30s"), 30_000);
    assert_eq!(logger.parse_relative_time("15m"), 900_000);
    assert_eq!(logger.parse_relative_time("2h"), 7_200_000);
    assert_eq!(logger.parse_relative_time("7d"), 604_800_000);
    assert_eq!(logger.parse_relative_time("+5s"), 5_000);
    assert_eq!(logger.parse_relative_time("0d"), 0);
    // anything else is one hour
    assert_eq!(logger.parse_relative_time(""), 3_600_000);
    assert_eq!(logger.parse_relative_time("s"), 3_600_000);
    assert_eq!(logger.parse_relative_time("+s"), 3_600_000);
    assert_eq!(logger.parse_relative_time("1w"), 3_600_000);
    assert_eq!(logger.parse_relative_time("1mo"), 3_600_000);
    assert_eq!(logger.parse_relative_time("-1h"), 3_600_000);
    assert_eq!(logger.parse_relative_time("1.5h"), 3_600_000);
    assert_eq!(logger.parse_relative_time("99999999999999999999s"), 3_600_000);
    // too large for 64 bits: the largest that fits
    assert_eq!(logger.parse_relative_time("18446744073709551615d"), u64::MAX);
}

#[test]
fn times_for_the_address_are_milliseconds() {
    let logger = VerboseLogger::new(true);
    let now_ms: u64 = 1_705_315_200_000;
    let (from, to) = logger.convert_times_for_url("now-1h", "now", now_ms);
    assert_eq!(from, "1705311600000");
    assert_eq!(to, "1705315200000");
    let (from, to) = logger.convert_times_for_url("now-15m", "now-30s", now_ms);
    assert_eq!(from, "1705314300000");
    assert_eq!(to, "1705315170000");
    let (from, to) = logger.convert_times_for_url("1705000000000", "1705000001000", now_ms);
    assert_eq!(from, "1705000000000");
    assert_eq!(to, "1705000001000");
    let (from, to) =
        logger.convert_times_for_url("2024-01-15T10:00:00Z", "2024-01-15T11:00:00Z", now_ms);
    assert_eq!(from, "1705311600000");
    assert_eq!(to, "1705315200000");
    let (from, to) = logger.convert_times_for_url("", "", now_ms);
    assert_eq!(from, "");
    assert_eq!(to, "");
    let (from, to) = logger.convert_times_for_url("now-1w", "now-garbage", now_ms);
    assert_eq!(from, "1705311600000");
    assert_eq!(to, "1705311600000");
    // never before the epoch
    let (from, to) = logger.convert_times_for_url("now-1d", "yesterday", 5);
    assert_eq!(from, "0");
    assert_eq!(to, "5");
    let (from, _) = logger.convert_times_for_url("yesterday", "now", 5);
    assert_eq!(from, "0");
}

#[test]
fn the_address_carries_the_encoded_query() {
    let logger = VerboseLogger::new(true);
    let now_ms: u64 = 1_705_315_200_000;
    assert_eq!(
        logger.datadog_url_lines(
            "logs",
            "service:api AND @http.status_code:500",
            "now-1h",
            "now",
            "datadoghq.com",
            now_ms
        ),
        vec![
            "[DEBUG] Datadog UI URL: https://app.datadoghq.com/logs?query=service%3Aapi%20AND%20%40http.status_code%3A500&from_ts=1705311600000&to_ts=1705315200000&live=false".to_string(),
            "[DEBUG] Note: URL uses approximate timestamps. Adjust time range in UI if needed.".to_string(),
        ]
    );
    assert_eq!(
        logger.datadog_url_lines(
            "spans",
            "env:prod caf\u{e9}~_-.",
            "1705000000000",
            "1705000001000",
            "us5.datadoghq.com",
            now_ms
        ),
        vec![
            "[DEBUG] Datadog UI URL: https://app.us5.datadoghq.com/apm/traces?query=env%3Aprod%20caf%C3%A9~_-.&from_ts=1705000000000&to_ts=1705000001000".to_string(),
        ]
    );
    assert_eq!(
        logger.datadog_url_lines("logs", "q", "1", "now", "datadoghq.eu", 7),
        vec![
            "[DEBUG] Datadog UI URL: https://app.datadoghq.eu/logs?query=q&from_ts=1&to_ts=7&live=false".to_string(),
            "[DEBUG] Note: URL uses approximate timestamps. Adjust time range in UI if needed.".to_string(),
        ]
    );
    assert!(logger
        .datadog_url_lines("metrics", "q", "now-1h", "now", "datadoghq.com", now_ms)
        .is_empty());
}

#[test]
fn the_address_is_made_from_the_present_clock() {
    let logger = VerboseLogger::new(true);
    let lines = logger.log_datadog_url("logs", "a b", "12", "34", "datadoghq.com");
    assert_eq!(
        lines,
        vec![
            "[DEBUG] Datadog UI URL: https://app.datadoghq.com/logs?query=a%20b&from_ts=12&to_ts=34&live=false".to_string(),
        ]
    );
    let lines = logger.log_datadog_url("spans", "q", "now-1h", "now", "datadoghq.com");
    assert_eq!(lines.len(), 2);
    assert!(lines[0].starts_with(
        "[DEBUG] Datadog UI URL: https://app.datadoghq.com/apm/traces?query=q&from_ts="
    ));
}

#[test]
fn digit_times_give_the_address_whatever_the_clock_reads() {
    let logger = VerboseLogger::new(true);
    for now_ms in [0u64, 1, 1_705_315_200_000, u64::MAX] {
        assert_eq!(
            logger.log_datadog_url("spans", "env:prod", "1705000000000", "1705000001000", "datadoghq.eu"),
            logger.datadog_url_lines(
                "spans",
                "env:prod",
                "1705000000000",
                "1705000001000",
                "datadoghq.eu",
                now_ms
            )
        );
    }
    assert_eq!(
        logger.log_datadog_url("logs", "q", "", "", "datadoghq.com"),
        vec![
            "[DEBUG] Datadog UI URL: https://app.datadoghq.com/logs?query=q&from_ts=&to_ts=&live=false".to_string(),
        ]
    );
    assert!(logger.log_datadog_url("metrics", "q", "1", "2", "datadoghq.com").is_empty());
    assert!(logger.log_datadog_url("metrics", "q", "now-1h", "now", "datadoghq.com").is_empty());
}
