use ddog::request::{logs_search, spans_search, SortOrder, PAGE_SIZE};

#[test]
fn a_logs_search_asks_for_pages_of_a_thousand_oldest_first() {
    let s = logs_search("service:api", "now-1h", "now", vec!["main".to_string(), "*".to_string()]);
    assert_eq!(s.query, "service:api");
    assert_eq!(s.from, "now-1h");
    assert_eq!(s.to, "now");
    assert_eq!(s.indexes, vec!["main".to_string(), "*".to_string()]);
    assert_eq!(s.page_limit, 1000);
    assert_eq!(PAGE_SIZE, 1000);
    assert_eq!(s.sort, SortOrder::TimestampAscending);
}

#[test]
fn a_spans_search_asks_for_pages_of_a_thousand_oldest_first() {
    let s = spans_search("env:prod", "2024-01-15T10:00:00Z", "1705315200000");
    assert_eq!(s.query, "env:prod");
    assert_eq!(s.from, "2024-01-15T10:00:00Z");
    assert_eq!(s.to, "1705315200000");
    assert_eq!(s.page_limit, 1000);
    assert_eq!(s.sort, SortOrder::TimestampAscending);
}

#[test]
fn a_search_carries_its_texts_byte_for_byte() {
    let query = "  Service:API  AND caf\u{e9} \u{65e5}\u{672c}\t";
    for (from, to) in [
        ("now-15m", "now"),
        ("2024-01-15T10:00:00+09:00", "2024-01-15T11:00:00.123Z"),
        ("0001705315200000", "1705315200000"),
        (" NOW-1H ", ""),
    ] {
        let indexes = vec![" Main ".to_string(), "".to_string(), "*".to_string()];
        let s = logs_search(query, from, to, indexes.clone());
        assert_eq!(s.query.as_bytes(), query.as_bytes());
        assert_eq!(s.from.as_bytes(), from.as_bytes());
        assert_eq!(s.to.as_bytes(), to.as_bytes());
        assert_eq!(s.indexes, indexes);
        let s = spans_search(query, from, to);
        assert_eq!(s.query.as_bytes(), query.as_bytes());
        assert_eq!(s.from.as_bytes(), from.as_bytes());
        assert_eq!(s.to.as_bytes(), to.as_bytes());
    }
}
