//! The requests made of the remote service, as plain values: what is
//! searched, over which times, and how the results are to be paged and
//! ordered.

use vstd::prelude::*;
use vstd::string::*;
use vstd::utf8::encode_utf8;

verus! {

/// How many records are asked for in one page.
pub const PAGE_SIZE: i32 = 1000;

/// The order in which results are asked for.
#[derive(Clone, Copy, Debug, PartialEq, Eq, Structural)]
pub enum SortOrder {
    /// Oldest first.
    TimestampAscending,
}

/// A search over logs.
#[derive(Debug)]
pub struct LogsSearch {
    pub query: String,
    pub from: String,
    pub to: String,
    /// The indexes searched; `*` stands for all.
    pub indexes: Vec<String>,
    pub page_limit: i32,
    pub sort: SortOrder,
}

/// A search over spans.
#[derive(Debug)]
pub struct SpansSearch {
    pub query: String,
    pub from: String,
    pub to: String,
    pub page_limit: i32,
    pub sort: SortOrder,
}

/// The search over logs for a query and a time range: pages of
/// `PAGE_SIZE`, oldest first. The query, the two time expressions and the
/// indexes go out as they are written, character for character and so byte
/// for byte, whatever they hold.
pub fn logs_search(query: &str, from: &str, to: &str, indexes: Vec<String>) -> (s: LogsSearch)
    ensures
        s.query@ == query@,
        s.from@ == from@,
        s.to@ == to@,
        encode_utf8(s.query@) == query.spec_bytes(),
        encode_utf8(s.from@) == from.spec_bytes(),
        encode_utf8(s.to@) == to.spec_bytes(),
        s.indexes == indexes,
        s.page_limit == PAGE_SIZE,
        s.sort == SortOrder::TimestampAscending,
{
    LogsSearch {
        query: String::from_str(query),
        from: String::from_str(from),
        to: String::from_str(to),
        indexes,
        page_limit: PAGE_SIZE,
        sort: SortOrder::TimestampAscending,
    }
}

/// The search over spans for a query and a time range: pages of
/// `PAGE_SIZE`, oldest first. The query and the two time expressions go
/// out as they are written, character for character and so byte for byte,
/// whatever they hold.
pub fn spans_search(query: &str, from: &str, to: &str) -> (s: SpansSearch)
    ensures
        s.query@ == query@,
        s.from@ == from@,
        s.to@ == to@,
        encode_utf8(s.query@) == query.spec_bytes(),
        encode_utf8(s.from@) == from.spec_bytes(),
        encode_utf8(s.to@) == to.spec_bytes(),
        s.page_limit == PAGE_SIZE,
        s.sort == SortOrder::TimestampAscending,
{
    SpansSearch {
        query: String::from_str(query),
        from: String::from_str(from),
        to: String::from_str(to),
        page_limit: PAGE_SIZE,
        sort: SortOrder::TimestampAscending,
    }
}

} // verus!
