//! The failure taxonomy: one variant per exit status, and the rules that sort
//! a remote failure's message into it.

use vstd::prelude::*;
use vstd::string::*;
use crate::text::{chars_of, contains_chars, contains_seq, join2};

verus! {

/// A classified failure. Each variant carries the text that explains it.
#[derive(Debug)]
pub enum AppError {
    /// The remote service rejected the credentials or denied access.
    Auth(String),
    /// Any other failure on the remote side, transport failures included.
    Api(String),
    /// The remote service rejected the query's syntax.
    InvalidQuery(String),
    /// Missing or invalid local input.
    Config(String),
    /// A local read or write failed.
    Io(String),
    /// A record could not be encoded.
    Serialization(String),
}

/// The class of a failure, without its text.
#[derive(Clone, Copy, Debug, PartialEq, Eq, Structural)]
pub enum ErrorKind {
    Auth,
    Api,
    InvalidQuery,
    Config,
    Io,
    Serialization,
}

/// The remote data set that a request was made against.
#[derive(Clone, Copy, Debug, PartialEq, Eq, Structural)]
pub enum Resource {
    Logs,
    Spans,
    Metrics,
}

/// The process exit status that belongs to each class of failure.
pub open spec fn exit_code_of(kind: ErrorKind) -> int {
    match kind {
        ErrorKind::Auth => 2,
        ErrorKind::Api => 3,
        ErrorKind::InvalidQuery => 4,
        ErrorKind::Config => 5,
        ErrorKind::Io => 6,
        ErrorKind::Serialization => 7,
    }
}

/// The words that introduce each class of failure in the printed error line.
pub open spec fn headline_of(kind: ErrorKind) -> Seq<char> {
    match kind {
        ErrorKind::Auth => "Authentication failed: "@,
        ErrorKind::Api => "API error: "@,
        ErrorKind::InvalidQuery => "Invalid query: "@,
        ErrorKind::Config => "Configuration error: "@,
        ErrorKind::Io => "IO error: "@,
        ErrorKind::Serialization => "Serialization error: "@,
    }
}

impl AppError {
    /// The class of this failure.
    pub open spec fn kind(&self) -> ErrorKind {
        match self {
            AppError::Auth(_) => ErrorKind::Auth,
            AppError::Api(_) => ErrorKind::Api,
            AppError::InvalidQuery(_) => ErrorKind::InvalidQuery,
            AppError::Config(_) => ErrorKind::Config,
            AppError::Io(_) => ErrorKind::Io,
            AppError::Serialization(_) => ErrorKind::Serialization,
        }
    }

    /// The text carried by this failure.
    pub open spec fn detail(&self) -> Seq<char> {
        match self {
            AppError::Auth(m) => m@,
            AppError::Api(m) => m@,
            AppError::InvalidQuery(m) => m@,
            AppError::Config(m) => m@,
            AppError::Io(m) => m@,
            AppError::Serialization(m) => m@,
        }
    }

    /// The class of this failure.
    pub fn error_kind(&self) -> (k: ErrorKind)
        ensures
            k == self.kind(),
    {
        match self {
            AppError::Auth(_) => ErrorKind::Auth,
            AppError::Api(_) => ErrorKind::Api,
            AppError::InvalidQuery(_) => ErrorKind::InvalidQuery,
            AppError::Config(_) => ErrorKind::Config,
            AppError::Io(_) => ErrorKind::Io,
            AppError::Serialization(_) => ErrorKind::Serialization,
        }
    }

    /// The process exit status for this failure: 2 for `Auth`, 3 for `Api`,
    /// 4 for `InvalidQuery`, 5 for `Config`, 6 for `Io`, 7 for `Serialization`.
    pub fn exit_code(&self) -> (code: i32)
        ensures
            code == exit_code_of(self.kind()),
            2 <= code <= 7,
    {
        match self {
            AppError::Auth(_) => 2,
            AppError::Api(_) => 3,
            AppError::InvalidQuery(_) => 4,
            AppError::Config(_) => 5,
            AppError::Io(_) => 6,
            AppError::Serialization(_) => 7,
        }
    }

    /// The single line shown to the user: the class's headline, then the text.
    pub fn message(&self) -> (line: String)
        ensures
            line@ == headline_of(self.kind()) + self.detail(),
    {
        match self {
            AppError::Auth(m) => join2("Authentication failed: ", m.as_str()),
            AppError::Api(m) => join2("API error: ", m.as_str()),
            AppError::InvalidQuery(m) => join2("Invalid query: ", m.as_str()),
            AppError::Config(m) => join2("Configuration error: ", m.as_str()),
            AppError::Io(m) => join2("IO error: ", m.as_str()),
            AppError::Serialization(m) => join2("Serialization error: ", m.as_str()),
        }
    }
}

/// The message speaks of a rejected credential.
pub open spec fn mentions_unauthorized(msg: Seq<char>) -> bool {
    contains_seq(msg, "401"@)
}

/// The message speaks of a denied access.
pub open spec fn mentions_forbidden(msg: Seq<char>) -> bool {
    contains_seq(msg, "403"@) || contains_seq(msg, "Forbidden"@)
}

/// The message speaks of a malformed request.
pub open spec fn mentions_bad_request(msg: Seq<char>) -> bool {
    contains_seq(msg, "400"@) || contains_seq(msg, "Bad Request"@)
}

/// The class of a remote failure, read off its message: a rejected credential
/// or a denied access is `Auth`, a malformed request `InvalidQuery`, anything
/// else `Api`. The earlier rule wins where several apply.
pub open spec fn failure_kind(msg: Seq<char>) -> ErrorKind {
    if mentions_unauthorized(msg) || mentions_forbidden(msg) {
        ErrorKind::Auth
    } else if mentions_bad_request(msg) {
        ErrorKind::InvalidQuery
    } else {
        ErrorKind::Api
    }
}

/// The advice given when access to `resource` was denied.
pub open spec fn denied_advice(resource: Resource) -> Seq<char> {
    match resource {
        Resource::Logs => "Access denied (403): Your API key may not have permission to access logs. "@,
        Resource::Spans => "Access denied (403): Your API key may not have permission to access APM spans. Note: APM spans require different permissions than logs. Ensure your API key has 'APM and Infrastructure' read permissions. "@,
        Resource::Metrics => "Access denied (403): Your API key may not have permission to access metrics. "@,
    }
}

/// The text carried by a classified remote failure: the message itself,
/// preceded by advice where the failure is one of authentication.
pub open spec fn failure_detail(msg: Seq<char>, resource: Resource) -> Seq<char> {
    if mentions_unauthorized(msg) {
        "Authentication failed (401): Invalid API or App key. "@ + msg
    } else if mentions_forbidden(msg) {
        denied_advice(resource) + msg
    } else {
        msg
    }
}

/// Sorts a failed request against `resource` into the taxonomy by its message.
pub fn classify_failure(msg: &str, resource: Resource) -> (e: AppError)
    ensures
        e.kind() == failure_kind(msg@),
        e.detail() == failure_detail(msg@, resource),
        e.kind() == ErrorKind::Auth || e.kind() == ErrorKind::InvalidQuery || e.kind()
            == ErrorKind::Api,
{
    let text = chars_of(msg);
    if contains_chars(&text, &chars_of("401")) {
        AppError::Auth(join2("Authentication failed (401): Invalid API or App key. ", msg))
    } else if contains_chars(&text, &chars_of("403")) || contains_chars(
        &text,
        &chars_of("Forbidden"),
    ) {
        let advice = match resource {
            Resource::Logs => "Access denied (403): Your API key may not have permission to access logs. ",
            Resource::Spans => "Access denied (403): Your API key may not have permission to access APM spans. Note: APM spans require different permissions than logs. Ensure your API key has 'APM and Infrastructure' read permissions. ",
            Resource::Metrics => "Access denied (403): Your API key may not have permission to access metrics. ",
        };
        AppError::Auth(join2(advice, msg))
    } else if contains_chars(&text, &chars_of("400")) || contains_chars(
        &text,
        &chars_of("Bad Request"),
    ) {
        AppError::InvalidQuery(String::from_str(msg))
    } else {
        AppError::Api(String::from_str(msg))
    }
}

/// Sorts a failed metrics request into the taxonomy by its message.
pub fn convert_datadog_error(msg: &str) -> (e: AppError)
    ensures
        e.kind() == failure_kind(msg@),
        e.detail() == failure_detail(msg@, Resource::Metrics),
{
    classify_failure(msg, Resource::Metrics)
}

} // verus!
