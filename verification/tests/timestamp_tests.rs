use history_lookup::error::HistoryError;
use history_lookup::timestamp::{days_ago_millis, weeks_ago_millis};

const NOW: i64 = 1_700_000_000_000;

#[test]
fn zero_days_ago_is_now() {
    assert_eq!(days_ago_millis(0, NOW), Ok(NOW));
}

#[test]
fn one_week_ago() {
    assert_eq!(weeks_ago_millis(1, NOW), Ok(NOW - 604_800_000));
}

#[test]
fn negative_days_are_rejected() {
    assert_eq!(days_ago_millis(-1, NOW), Err(HistoryError::InvalidArgument));
}

#[test]
fn negative_weeks_are_rejected() {
    assert_eq!(weeks_ago_millis(-3, NOW), Err(HistoryError::InvalidArgument));
}

#[test]
fn sixty_days_ago() {
    assert_eq!(days_ago_millis(60, NOW), Ok(NOW - 60 * 86_400_000));
}

#[test]
fn seven_days_equal_one_week() {
    assert_eq!(days_ago_millis(7, NOW), weeks_ago_millis(1, NOW));
}

#[test]
fn largest_day_span() {
    let n = i64::MAX / 86_400_000;
    assert_eq!(days_ago_millis(n, 0), Ok(-(n * 86_400_000)));
}
