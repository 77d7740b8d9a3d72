use ddog::cli::{
    Cli, Domain, LogsAction, MetricsAction, Pagination, SpansAction, TimeFrom, TimeRange,
    TimeRangeRelativeOnly,
};
use ddog::config::load_config;
use ddog::error::{AppError, Resource};
use ddog::logging::VerboseLogger;
use ddog::time::TimeError;

fn range(from: &str, to: &str) -> TimeRange {
    TimeRange { from: from.to_string(), to: to.to_string() }
}

#[test]
fn a_range_is_valid_when_both_ends_are() {
    assert!(range("now-1h", "now").is_valid());
    assert!(range("2024-01-15T10:00:00Z", "now").is_valid());
    assert!(range("now", "now-1h").is_valid());
    assert!(!range("now-1x", "now").is_valid());
    assert!(!range("now", "").is_valid());
}

#[test]
fn a_metrics_range_resolves_both_ends() {
    let r = TimeRangeRelativeOnly { from: "now-1h".to_string(), to: "now".to_string() };
    assert_eq!(r.seconds_at(10_000), Ok((6_400, 10_000)));
    let r = TimeRangeRelativeOnly { from: "1705315200000".to_string(), to: "1705315300".to_string() };
    assert_eq!(r.seconds_at(0), Ok((1_705_315_200, 1_705_315_300)));
    let r = TimeRangeRelativeOnly { from: "now-1x".to_string(), to: "2024-01-15T10:00:00Z".to_string() };
    assert_eq!(r.seconds_at(0), Err(TimeError::InvalidUnit));
    let r = TimeRangeRelativeOnly { from: "now".to_string(), to: "2024-01-15T10:00:00Z".to_string() };
    assert_eq!(r.seconds_at(0), Err(TimeError::UnsupportedFormat));
    let f = TimeFrom { from: "now-1d".to_string() };
    assert_eq!(f.seconds_at(100_000), Ok(13_600));
}

#[test]
fn a_metrics_range_is_resolved_by_the_clock() {
    let now = std::time::SystemTime::now()
        .duration_since(std::time::UNIX_EPOCH)
        .unwrap()
        .as_secs() as i64;
    let r = TimeRangeRelativeOnly { from: "now-1h".to_string(), to: "now".to_string() };
    let (from, to) = r.resolve().unwrap();
    assert!((now - from - 3600).abs() < 5);
    assert!((to - now).abs() < 5);
    let r = TimeRangeRelativeOnly { from: "1705315200".to_string(), to: "1705315200000".to_string() };
    assert!(matches!(r.resolve(), Ok((1_705_315_200, 1_705_315_200))));
    let r = TimeRangeRelativeOnly { from: "now-1x".to_string(), to: "bad".to_string() };
    match r.resolve() {
        Err(AppError::Config(m)) => assert_eq!(m, "Invalid time unit in: now-1x"),
        other => panic!("unexpected: {:?}", other),
    }
    let r = TimeRangeRelativeOnly { from: "now".to_string(), to: "2024-01-15T10:00:00Z".to_string() };
    match r.resolve() {
        Err(e) => assert_eq!(e.exit_code(), 5),
        other => panic!("unexpected: {:?}", other),
    }
    assert!(matches!(TimeFrom { from: "86400".to_string() }.resolve(), Ok(86_400)));
    assert!(TimeFrom { from: "yesterday".to_string() }.resolve().is_err());
}

#[test]
fn each_command_has_its_endpoint() {
    let logs = Domain::Logs {
        action: LogsAction::Search {
            query: "service:api".to_string(),
            time_range: range("now-1h", "now"),
            pagination: Pagination { limit: 100 },
            indexes: vec!["*".to_string()],
        },
    };
    let spans = Domain::Spans {
        action: SpansAction::Search {
            query: "env:prod".to_string(),
            time_range: range("now-15m", "now"),
            pagination: Pagination { limit: 50 },
        },
    };
    let query = Domain::Metrics {
        action: MetricsAction::Query {
            query: "avg:system.cpu.user{*}".to_string(),
            time_range: TimeRangeRelativeOnly { from: "now-1h".to_string(), to: "now".to_string() },
            limit: 1000,
        },
    };
    let list = Domain::Metrics {
        action: MetricsAction::List { time_from: TimeFrom { from: "now-1h".to_string() } },
    };
    assert_eq!((logs.endpoint(), logs.method()), ("/api/v2/logs/events", "POST"));
    assert_eq!((spans.endpoint(), spans.method()), ("/api/v2/spans/events/search", "POST"));
    assert_eq!((query.endpoint(), query.method()), ("/api/v1/query", "GET"));
    assert_eq!((list.endpoint(), list.method()), ("/api/v1/metrics", "GET"));
    assert_eq!(logs.resource(), Resource::Logs);
    assert_eq!(spans.resource(), Resource::Spans);
    assert_eq!(query.resource(), Resource::Metrics);
    assert_eq!(list.resource(), Resource::Metrics);
    assert_eq!(logs.limit(), 100);
    assert_eq!(spans.limit(), 50);
    assert_eq!(query.limit(), 1000);
    assert_eq!(list.limit(), 0);

    let logger = VerboseLogger::new(true);
    assert_eq!(
        logs.announce(&logger),
        vec![
            "[DEBUG] Resource type: logs".to_string(),
            "[DEBUG] Query: service:api".to_string(),
            "[DEBUG] Time range: now-1h to now".to_string(),
            "[DEBUG] API POST /api/v2/logs/events".to_string(),
        ]
    );
    assert_eq!(
        query.announce(&logger),
        vec![
            "[DEBUG] Resource type: metrics".to_string(),
            "[DEBUG] Query: avg:system.cpu.user{*}".to_string(),
            "[DEBUG] Time range: now-1h to now".to_string(),
            "[DEBUG] API GET /api/v1/query".to_string(),
        ]
    );
    assert_eq!(
        list.announce(&logger),
        vec![
            "[DEBUG] Listing active metrics from now-1h".to_string(),
            "[DEBUG] API GET /api/v1/metrics".to_string(),
        ]
    );
    assert!(spans.announce(&VerboseLogger::new(false)).is_empty());

    let cli = Cli { verbose: true, domain: spans };
    assert!(cli.verbose);
    assert_eq!(cli.domain.announce(&logger).len(), 4);
}

#[test]
fn both_keys_are_required_and_must_not_be_empty() {
    let some = |s: &str| Some(s.to_string());
    match load_config(None, None, None) {
        Err(AppError::Config(m)) => assert_eq!(m, "DD_API_KEY environment variable not set"),
        other => panic!("unexpected: {:?}", other),
    }
    match load_config(some(""), None, None) {
        Err(AppError::Config(m)) => assert_eq!(m, "DD_APP_KEY environment variable not set"),
        other => panic!("unexpected: {:?}", other),
    }
    match load_config(some(""), some(""), None) {
        Err(AppError::Config(m)) => assert_eq!(m, "DD_API_KEY is empty"),
        other => panic!("unexpected: {:?}", other),
    }
    match load_config(some("k"), some(""), some("datadoghq.eu")) {
        Err(e) => {
            assert_eq!(e.exit_code(), 5);
            assert_eq!(e.message(), "Configuration error: DD_APP_KEY is empty");
        }
        other => panic!("unexpected: {:?}", other),
    }
    let c = load_config(some("api"), some("app"), None).unwrap();
    assert_eq!((c.api_key.as_str(), c.app_key.as_str(), c.site.as_str()), ("api", "app", "datadoghq.com"));
    let c = load_config(some("api"), some("app"), some("datadoghq.eu")).unwrap();
    assert_eq!(c.site, "datadoghq.eu");
}

#[test]
fn ends_that_are_not_relative_resolve_without_the_clock() {
    let r = TimeRangeRelativeOnly { from: "0".to_string(), to: "999999999999".to_string() };
    assert!(matches!(r.resolve(), Ok((0, 999_999_999_999))));
    let r = TimeRangeRelativeOnly { from: "1000000000000".to_string(), to: "4102444800000".to_string() };
    assert!(matches!(r.resolve(), Ok((1_000_000_000, 4_102_444_800))));
    assert!(matches!(TimeFrom { from: "1705315200000".to_string() }.resolve(), Ok(1_705_315_200)));
    assert!(matches!(TimeFrom { from: "0".to_string() }.resolve(), Ok(0)));
}

#[test]
fn the_failure_of_the_start_comes_before_that_of_the_end() {
    let r = TimeRangeRelativeOnly {
        from: "2024-01-15T10:00:00Z".to_string(),
        to: "now-1x".to_string(),
    };
    match r.resolve() {
        Err(AppError::Config(m)) => assert_eq!(
            m,
            "Time format '2024-01-15T10:00:00Z' not supported. Please use relative times (now, now-1h) or Unix timestamps"
        ),
        other => panic!("unexpected: {:?}", other),
    }
    let r = TimeRangeRelativeOnly { from: "1705315200".to_string(), to: "tomorrow".to_string() };
    match r.resolve() {
        Err(AppError::Config(m)) => assert_eq!(
            m,
            "Time format 'tomorrow' not supported. Please use relative times (now, now-1h) or Unix timestamps"
        ),
        other => panic!("unexpected: {:?}", other),
    }
    match (TimeFrom { from: "".to_string() }).resolve() {
        Err(AppError::Config(m)) => assert_eq!(
            m,
            "Time format '' not supported. Please use relative times (now, now-1h) or Unix timestamps"
        ),
        other => panic!("unexpected: {:?}", other),
    }
}
