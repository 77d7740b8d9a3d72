//! The command line once it has been read: which data set is asked, over
//! which time range, and how much of it.

use vstd::prelude::*;
use vstd::string::*;
use crate::error::{AppError, ErrorKind, Resource};
use crate::logging::{debug_line, endpoint_line, request_lines, VerboseLogger};
use crate::text::texts;
use crate::time::{
    epoch_seconds, is_clock_failure, is_relative, is_valid_time_range, parse_to_unix_seconds,
    seconds_at, seconds_outcome, time_error_text, valid_time_range, TimeError,
};

verus! {

/// A time range for logs and spans: relative, calendar or epoch values.
#[derive(Debug, Clone)]
pub struct TimeRange {
    /// Start of the range.
    pub from: String,
    /// End of the range.
    pub to: String,
}

/// A time range for metrics: relative or epoch values only.
#[derive(Debug, Clone)]
pub struct TimeRangeRelativeOnly {
    /// Start of the range.
    pub from: String,
    /// End of the range.
    pub to: String,
}

/// A single start time, for commands that take no end.
#[derive(Debug, Clone)]
pub struct TimeFrom {
    /// Start time.
    pub from: String,
}

/// How many results to return at most; 0 for all.
#[derive(Debug, Clone)]
pub struct Pagination {
    /// The most results to return; 0 for no limit.
    pub limit: u64,
}

/// What can be asked of logs.
#[derive(Debug)]
pub enum LogsAction {
    /// Search logs by a query.
    Search { query: String, time_range: TimeRange, pagination: Pagination, indexes: Vec<String> },
}

/// What can be asked of spans.
#[derive(Debug)]
pub enum SpansAction {
    /// Search spans by a query.
    Search { query: String, time_range: TimeRange, pagination: Pagination },
}

/// What can be asked of metrics.
#[derive(Debug)]
pub enum MetricsAction {
    /// Query the samples of a metric.
    Query { query: String, time_range: TimeRangeRelativeOnly, limit: u64 },
    /// List the metrics that reported since a start time.
    List { time_from: TimeFrom },
}

/// The data set asked, with what is asked of it.
#[derive(Debug)]
#[allow(inconsistent_fields)]
pub enum Domain {
    Logs { action: LogsAction },
    Spans { action: SpansAction },
    Metrics { action: MetricsAction },
}

/// A command line that has been read.
#[derive(Debug)]
pub struct Cli {
    /// Whether verbose output was asked for.
    pub verbose: bool,
    /// The data set asked, with what is asked of it.
    pub domain: Domain,
}

impl TimeRange {
    /// Whether both ends have a shape that logs and spans take.
    pub fn is_valid(&self) -> (valid: bool)
        ensures
            valid == valid_time_range(self.from@, self.to@),
    {
        is_valid_time_range(self.from.as_str(), self.to.as_str())
    }
}

/// Both ends of a range in seconds at the instant `now`; where the start
/// is turned down, its failure is the one reported.
pub open spec fn range_seconds(from: Seq<char>, to: Seq<char>, now: int) -> Result<
    (i64, i64),
    TimeError,
> {
    match epoch_seconds(from, now) {
        Err(e) => Err(e),
        Ok(a) => match epoch_seconds(to, now) {
            Err(e) => Err(e),
            Ok(b) => Ok((a, b)),
        },
    }
}

/// What resolving a range returns once the clock was read as `at_from` for
/// the start and as `at_to` for the end: both ends in seconds, or the
/// failure of the start, or else that of the end, with the text that
/// explains it.
pub open spec fn range_outcome(
    r: Result<(i64, i64), AppError>,
    from: Seq<char>,
    to: Seq<char>,
    at_from: int,
    at_to: int,
) -> bool {
    match epoch_seconds(from, at_from) {
        Err(e) => r is Err && r->Err_0.kind() == ErrorKind::Config && r->Err_0.detail()
            == time_error_text(e, from),
        Ok(a) => match epoch_seconds(to, at_to) {
            Err(e) => r is Err && r->Err_0.kind() == ErrorKind::Config && r->Err_0.detail()
                == time_error_text(e, to),
            Ok(b) => r is Ok && r->Ok_0 == (a, b),
        },
    }
}

/// At some instant of the clock the expression stands for `seconds`.
pub open spec fn resolves_to(s: Seq<char>, seconds: i64) -> bool {
    exists|now: int|
        0 <= now <= i64::MAX && #[trigger] epoch_seconds(s, now) == Ok::<i64, TimeError>(seconds)
}

/// At some instant of the clock the expression stands for a time.
pub open spec fn can_resolve(s: Seq<char>) -> bool {
    exists|now: int| 0 <= now <= i64::MAX && (#[trigger] epoch_seconds(s, now)) is Ok
}

impl TimeRangeRelativeOnly {
    /// Both ends in whole seconds since the epoch, read at the instant `now`.
    pub fn seconds_at(&self, now: i64) -> (r: Result<(i64, i64), TimeError>)
        ensures
            r == range_seconds(self.from@, self.to@, now as int),
    {
        let a = match seconds_at(self.from.as_str(), now) {
            Ok(a) => a,
            Err(e) => {
                return Err(e);
            },
        };
        match seconds_at(self.to.as_str(), now) {
            Ok(b) => Ok((a, b)),
            Err(e) => Err(e),
        }
    }

    /// Both ends in whole seconds since the epoch, each read at the instant
    /// the clock gives when its turn comes, the start first.
    ///
    /// An end that is not relative is resolved without the clock, so a range
    /// with no relative end has one result, whatever the clock does. The
    /// start is resolved first: where it is turned down its failure is the
    /// result, and the end is not looked at. A relative end is resolved at
    /// the instant the clock gives; where the clock cannot be read the
    /// result is the failure that says so. Every failure is of class `Config`.
    pub fn resolve(&self) -> (r: Result<(i64, i64), AppError>)
        ensures
            !is_relative(self.from@) && !is_relative(self.to@) ==> range_outcome(
                r,
                self.from@,
                self.to@,
                0,
                0,
            ),
            !is_relative(self.from@) && epoch_seconds(self.from@, 0) is Err ==> r is Err
                && r->Err_0.kind() == ErrorKind::Config && r->Err_0.detail() == time_error_text(
                epoch_seconds(self.from@, 0)->Err_0,
                self.from@,
            ),
            (exists|a: int, b: int|
                0 <= a <= i64::MAX && 0 <= b <= i64::MAX && #[trigger] range_outcome(
                    r,
                    self.from@,
                    self.to@,
                    a,
                    b,
                )) || (r is Err && is_clock_failure(r->Err_0) && (is_relative(self.from@)
                || is_relative(self.to@))),
            r is Ok ==> resolves_to(self.from@, r->Ok_0.0) && resolves_to(self.to@, r->Ok_0.1),
            r is Err ==> r->Err_0.kind() == ErrorKind::Config,
            !can_resolve(self.from@) || !can_resolve(self.to@) ==> r is Err,
    {
        let first = parse_to_unix_seconds(self.from.as_str());
        let ghost at_first: int = if is_relative(self.from@) && exists|now: int|
            0 <= now <= i64::MAX && #[trigger] seconds_outcome(first, self.from@, now) {
            choose|now: int| 0 <= now <= i64::MAX && #[trigger] seconds_outcome(first, self.from@, now)
        } else {
            0
        };
        let a = match first {
            Ok(a) => a,
            Err(e) => {
                let r: Result<(i64, i64), AppError> = Err(e);
                proof {
                    if seconds_outcome(first, self.from@, at_first) {
                        assert(range_outcome(r, self.from@, self.to@, at_first, 0));
                    }
                }
                return r;
            },
        };
        let second = parse_to_unix_seconds(self.to.as_str());
        let ghost at_second: int = if is_relative(self.to@) && exists|now: int|
            0 <= now <= i64::MAX && #[trigger] seconds_outcome(second, self.to@, now) {
            choose|now: int| 0 <= now <= i64::MAX && #[trigger] seconds_outcome(second, self.to@, now)
        } else {
            0
        };
        let r = match second {
            Ok(b) => Ok((a, b)),
            Err(e) => Err(e),
        };
        proof {
            assert(seconds_outcome(first, self.from@, at_first));
            if seconds_outcome(second, self.to@, at_second) {
                assert(range_outcome(r, self.from@, self.to@, at_first, at_second));
            }
        }
        r
    }
}

impl TimeFrom {
    /// The start in whole seconds since the epoch, read at the instant `now`.
    pub fn seconds_at(&self, now: i64) -> (r: Result<i64, TimeError>)
        ensures
            r == epoch_seconds(self.from@, now as int),
    {
        seconds_at(self.from.as_str(), now)
    }

    /// The start in whole seconds since the epoch, read at the instant the
    /// clock gives.
    ///
    /// A start that is not relative is resolved without the clock and has
    /// one result, whatever the clock does. A relative one is resolved at
    /// the instant the clock gives; where the clock cannot be read the
    /// result is the failure that says so. Every failure is of class `Config`.
    pub fn resolve(&self) -> (r: Result<i64, AppError>)
        ensures
            !is_relative(self.from@) ==> seconds_outcome(r, self.from@, 0),
            is_relative(self.from@) ==> (exists|now: int|
                0 <= now <= i64::MAX && #[trigger] seconds_outcome(r, self.from@, now)) || (r is Err
                && is_clock_failure(r->Err_0)),
            r is Ok ==> resolves_to(self.from@, r->Ok_0),
            r is Err ==> r->Err_0.kind() == ErrorKind::Config,
            !can_resolve(self.from@) ==> r is Err,
    {
        parse_to_unix_seconds(self.from.as_str())
    }
}

/// The path of the endpoint that serves what is asked.
pub open spec fn endpoint_path(domain: Domain) -> Seq<char> {
    match domain {
        Domain::Logs { .. } => "/api/v2/logs/events"@,
        Domain::Spans { .. } => "/api/v2/spans/events/search"@,
        Domain::Metrics { action: MetricsAction::Query { .. } } => "/api/v1/query"@,
        Domain::Metrics { action: MetricsAction::List { .. } } => "/api/v1/metrics"@,
    }
}

/// The HTTP method by which what is asked is requested: searches are
/// posted, metrics are read.
pub open spec fn endpoint_method(domain: Domain) -> Seq<char> {
    match domain {
        Domain::Logs { .. } => "POST"@,
        Domain::Spans { .. } => "POST"@,
        Domain::Metrics { .. } => "GET"@,
    }
}

/// The most results that were asked for; 0 for all. A listing has no limit.
pub open spec fn limit_of(domain: Domain) -> u64 {
    match domain {
        Domain::Logs { action: LogsAction::Search { pagination, .. } } => pagination.limit,
        Domain::Spans { action: SpansAction::Search { pagination, .. } } => pagination.limit,
        Domain::Metrics { action: MetricsAction::Query { limit, .. } } => limit,
        Domain::Metrics { action: MetricsAction::List { .. } } => 0,
    }
}

/// The lines logged before a request is made: for a query its resource,
/// text and time range, for a listing its start time, and for each the
/// endpoint called.
pub open spec fn announcement(domain: Domain) -> Seq<Seq<char>> {
    match domain {
        Domain::Logs { action: LogsAction::Search { query, time_range, .. } } => request_lines(
            "logs"@,
            query@,
            time_range.from@,
            time_range.to@,
        ).push(endpoint_line(endpoint_path(domain), endpoint_method(domain))),
        Domain::Spans { action: SpansAction::Search { query, time_range, .. } } => request_lines(
            "spans"@,
            query@,
            time_range.from@,
            time_range.to@,
        ).push(endpoint_line(endpoint_path(domain), endpoint_method(domain))),
        Domain::Metrics { action: MetricsAction::Query { query, time_range, .. } } => request_lines(
            "metrics"@,
            query@,
            time_range.from@,
            time_range.to@,
        ).push(endpoint_line(endpoint_path(domain), endpoint_method(domain))),
        Domain::Metrics { action: MetricsAction::List { time_from } } => seq![
            debug_line("Listing active metrics from "@ + time_from.from@),
            endpoint_line(endpoint_path(domain), endpoint_method(domain)),
        ],
    }
}

impl Domain {
    /// The data set that is asked.
    pub fn resource(&self) -> (r: Resource)
        ensures
            r == match self {
                Domain::Logs { .. } => Resource::Logs,
                Domain::Spans { .. } => Resource::Spans,
                Domain::Metrics { .. } => Resource::Metrics,
            },
    {
        match self {
            Domain::Logs { .. } => Resource::Logs,
            Domain::Spans { .. } => Resource::Spans,
            Domain::Metrics { .. } => Resource::Metrics,
        }
    }

    /// The path of the endpoint that serves what is asked.
    pub fn endpoint(&self) -> (path: &'static str)
        ensures
            path@ == endpoint_path(*self),
    {
        match self {
            Domain::Logs { .. } => "/api/v2/logs/events",
            Domain::Spans { .. } => "/api/v2/spans/events/search",
            Domain::Metrics { action: MetricsAction::Query { .. } } => "/api/v1/query",
            Domain::Metrics { action: MetricsAction::List { .. } } => "/api/v1/metrics",
        }
    }

    /// The HTTP method by which what is asked is requested.
    pub fn method(&self) -> (name: &'static str)
        ensures
            name@ == endpoint_method(*self),
    {
        match self {
            Domain::Logs { .. } => "POST",
            Domain::Spans { .. } => "POST",
            Domain::Metrics { .. } => "GET",
        }
    }

    /// The most results that were asked for; 0 for all.
    pub fn limit(&self) -> (n: u64)
        ensures
            n == limit_of(*self),
    {
        match self {
            Domain::Logs { action: LogsAction::Search { pagination, .. } } => pagination.limit,
            Domain::Spans { action: SpansAction::Search { pagination, .. } } => pagination.limit,
            Domain::Metrics { action: MetricsAction::Query { limit, .. } } => *limit,
            Domain::Metrics { action: MetricsAction::List { .. } } => 0,
        }
    }

    /// The lines that `logger` gives before the request is made.
    pub fn announce(&self, logger: &VerboseLogger) -> (lines: Vec<String>)
        ensures
            texts(lines@) == if logger.enabled() {
                announcement(*self)
            } else {
                Seq::<Seq<char>>::empty()
            },
    {
        let mut lines = match self {
            Domain::Logs { action: LogsAction::Search { query, time_range, .. } } => {
                logger.log_request(
                    "logs",
                    query.as_str(),
                    time_range.from.as_str(),
                    time_range.to.as_str(),
                )
            },
            Domain::Spans { action: SpansAction::Search { query, time_range, .. } } => {
                logger.log_request(
                    "spans",
                    query.as_str(),
                    time_range.from.as_str(),
                    time_range.to.as_str(),
                )
            },
            Domain::Metrics { action: MetricsAction::Query { query, time_range, .. } } => {
                logger.log_request(
                    "metrics",
                    query.as_str(),
                    time_range.from.as_str(),
                    time_range.to.as_str(),
                )
            },
            Domain::Metrics { action: MetricsAction::List { time_from } } => {
                logger.log(
                    String::from_str("Listing active metrics from ").concat(
                        time_from.from.as_str(),
                    ).as_str(),
                )
            },
        };
        let ghost first = texts(lines@);
        let mut last = logger.log_api_endpoint(self.endpoint(), self.method());
        let ghost second = texts(last@);
        lines.append(&mut last);
        assert(texts(lines@) =~= first + second);
        proof {
            if logger.enabled() {
                assert(first + second =~= announcement(*self));
            } else {
                assert(first + second =~= Seq::<Seq<char>>::empty());
            }
        }
        lines
    }
}

} // verus!
