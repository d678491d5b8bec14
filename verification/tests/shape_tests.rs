use history_lookup::error::HistoryError;
use history_lookup::shape::{normalize, normalize_search_result, HistoryEntry, NormalizedEntry};

fn empty_entry() -> HistoryEntry {
    HistoryEntry { url: None, title: None, visit_count: None, last_visit_time: None }
}

#[test]
fn absent_fields_become_defaults() {
    let out = normalize(&vec![empty_entry()]);
    assert_eq!(
        out,
        vec![NormalizedEntry {
            url: "".to_string(),
            title: "".to_string(),
            visit_count: 0,
            last_visit_time: 0,
        }]
    );
}

#[test]
fn end_to_end_entry_is_decoded_and_kept() {
    let raw = vec![HistoryEntry {
        url: Some("https://example.com/a%20b".to_string()),
        title: Some("A".to_string()),
        visit_count: Some(2),
        last_visit_time: Some(1_700_000_000_000),
    }];
    let out = normalize(&raw);
    assert_eq!(
        out,
        vec![NormalizedEntry {
            url: "https://example.com/a b".to_string(),
            title: "A".to_string(),
            visit_count: 2,
            last_visit_time: 1_700_000_000_000,
        }]
    );
}

#[test]
fn order_and_length_are_preserved() {
    let raw = vec![
        HistoryEntry {
            url: Some("https://one.example".to_string()),
            title: Some("one".to_string()),
            visit_count: Some(1),
            last_visit_time: Some(3),
        },
        empty_entry(),
        HistoryEntry {
            url: Some("https://three.example/%2F".to_string()),
            title: None,
            visit_count: Some(3),
            last_visit_time: Some(1),
        },
    ];
    let out = normalize(&raw);
    assert_eq!(out.len(), raw.len());
    assert_eq!(out[0].url, "https://one.example");
    assert_eq!(out[0].title, "one");
    assert_eq!(out[1].url, "");
    assert_eq!(out[2].url, "https://three.example//");
    assert_eq!(out[2].visit_count, 3);
    assert_eq!(out[2].last_visit_time, 1);
}

#[test]
fn multibyte_escapes_in_url_are_decoded() {
    let raw = vec![HistoryEntry {
        url: Some("https://example.com/%E2%9C%93".to_string()),
        title: None,
        visit_count: None,
        last_visit_time: None,
    }];
    let out = normalize(&raw);
    assert_eq!(out[0].url, "https://example.com/\u{2713}");
}

#[test]
fn served_list_is_normalized() {
    let r = normalize_search_result(Some(vec![empty_entry()]));
    let out = r.unwrap();
    assert_eq!(out.len(), 1);
    assert_eq!(out[0].url, "");
}

#[test]
fn failed_search_surfaces_provider_failure() {
    let r = normalize_search_result(None);
    assert!(matches!(r, Err(HistoryError::ProviderFailure)));
}
