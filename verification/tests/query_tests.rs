use history_lookup::error::HistoryError;
use history_lookup::query::{build_query, build_recent_query, QueryOptions};

const NOW: i64 = 1_700_000_000_000;

#[test]
fn absent_options_take_defaults() {
    let q = build_query(QueryOptions::default());
    assert_eq!(q.text, "");
    assert_eq!(q.start_time, None);
    assert_eq!(q.max_results, None);
}

#[test]
fn present_options_are_kept() {
    let q = build_query(QueryOptions {
        text_filter: Some("rust".to_string()),
        start_time: Some(123),
        max_results: Some(3),
    });
    assert_eq!(q.text, "rust");
    assert_eq!(q.start_time, Some(123));
    assert_eq!(q.max_results, Some(3));
}

#[test]
fn recent_query_computes_cutoff() {
    let q = build_recent_query(7, 100, NOW).unwrap();
    assert_eq!(q.text, "");
    assert_eq!(q.start_time, Some(NOW - 604_800_000));
    assert_eq!(q.max_results, Some(100));
}

#[test]
fn recent_query_from_now() {
    let q = build_recent_query(0, 3, NOW).unwrap();
    assert_eq!(q.start_time, Some(NOW));
}

#[test]
fn recent_query_rejects_negative_days() {
    let r = build_recent_query(-1, 100, NOW);
    assert!(matches!(r, Err(HistoryError::InvalidArgument)));
}
