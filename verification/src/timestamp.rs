//! Epoch-millisecond cutoffs for time-bounded history queries.
//!
//! The current time is injected by the caller, so every function here
//! is a pure function of its arguments.

use vstd::prelude::*;
use crate::error::HistoryError;

verus! {

/// Milliseconds in one day.
pub const MILLIS_PER_DAY: i64 = 86_400_000;

/// Milliseconds in one week.
pub const MILLIS_PER_WEEK: i64 = 604_800_000;

/// The epoch-millisecond instant `n` days before `now_ms`.
///
/// `n == 0` means "now". A negative `n` is a usage error and is
/// rejected, never clamped.
pub fn days_ago_millis(n: i64, now_ms: i64) -> (r: Result<i64, HistoryError>)
    requires
        n >= 0 ==> n * MILLIS_PER_DAY <= i64::MAX && now_ms - n * MILLIS_PER_DAY >= i64::MIN,
    ensures
        match r {
            Ok(t) => n >= 0 && t == now_ms - n * MILLIS_PER_DAY,
            Err(e) => e == HistoryError::InvalidArgument && n < 0,
        },
{
    if n < 0 {
        Err(HistoryError::InvalidArgument)
    } else {
        Ok(now_ms - n * MILLIS_PER_DAY)
    }
}

/// The epoch-millisecond instant `n` weeks before `now_ms`.
///
/// `n == 0` means "now". A negative `n` is a usage error and is
/// rejected, never clamped.
pub fn weeks_ago_millis(n: i64, now_ms: i64) -> (r: Result<i64, HistoryError>)
    requires
        n >= 0 ==> n * MILLIS_PER_WEEK <= i64::MAX && now_ms - n * MILLIS_PER_WEEK >= i64::MIN,
    ensures
        match r {
            Ok(t) => n >= 0 && t == now_ms - n * MILLIS_PER_WEEK,
            Err(e) => e == HistoryError::InvalidArgument && n < 0,
        },
{
    if n < 0 {
        Err(HistoryError::InvalidArgument)
    } else {
        Ok(now_ms - n * MILLIS_PER_WEEK)
    }
}

/// A week is seven days: the two helpers agree on cutoffs, so
/// `weeks_ago_millis(n, now)` equals `days_ago_millis(7 n, now)`.
pub proof fn lemma_week_is_seven_days(n: i64)
    ensures
        n * MILLIS_PER_WEEK == (7 * n) * MILLIS_PER_DAY,
{
    assert(n * 604_800_000 == (7 * n) * 86_400_000) by (nonlinear_arith);
}

} // verus!
