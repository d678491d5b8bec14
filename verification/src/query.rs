//! Construction of history search requests with documented defaults.

use vstd::prelude::*;
use crate::error::HistoryError;
use crate::timestamp::MILLIS_PER_DAY;

verus! {

/// A structured history search request.
///
/// `text` filters entries by substring; an empty text matches every
/// page. `start_time` is a lower bound on visit time in epoch
/// milliseconds, absent meaning no bound. `max_results` caps the
/// number of entries returned, absent meaning the provider's default.
#[derive(Clone, Debug)]
pub struct HistoryQuery {
    pub text: String,
    pub start_time: Option<i64>,
    pub max_results: Option<u32>,
}

impl HistoryQuery {
    /// A query whose lower time bound, if any, does not lie in the
    /// future of the given instant.
    pub open spec fn bounded_by(self, now_ms: i64) -> bool {
        match self.start_time {
            Some(t) => t <= now_ms,
            None => true,
        }
    }
}

/// The recognized options of a history search; any field may be left
/// absent and then takes its documented default.
#[derive(Clone, Debug)]
pub struct QueryOptions {
    /// Substring filter the provider applies; defaults to the empty
    /// text, which matches every page.
    pub text_filter: Option<String>,
    /// Lower bound on visit time in epoch milliseconds; defaults to
    /// unset, meaning no lower bound.
    pub start_time: Option<i64>,
    /// Cap on the number of returned entries; defaults to unset,
    /// meaning the provider's default.
    pub max_results: Option<u32>,
}

impl Default for QueryOptions {
    /// Options with every field absent.
    fn default() -> (r: Self)
        ensures
            r.text_filter is None,
            r.start_time is None,
            r.max_results is None,
    {
        QueryOptions { text_filter: None, start_time: None, max_results: None }
    }
}

/// Builds a search request from options, filling absent fields with
/// their defaults: empty text, no lower time bound, provider's own
/// result cap.
pub fn build_query(options: QueryOptions) -> (q: HistoryQuery)
    ensures
        q.text@ == match options.text_filter {
            Some(t) => t@,
            None => Seq::<char>::empty(),
        },
        q.start_time == options.start_time,
        q.max_results == options.max_results,
{
    let text = match options.text_filter {
        Some(t) => t,
        None => String::new(),
    };
    HistoryQuery { text, start_time: options.start_time, max_results: options.max_results }
}

/// Builds a request for the entries visited in the last `days_ago`
/// days, capped at `max_results`, against the injected instant
/// `now_ms`.
///
/// `days_ago == 0` means "from now on". A negative `days_ago` is a
/// usage error and is rejected.
pub fn build_recent_query(days_ago: i64, max_results: u32, now_ms: i64) -> (r: Result<
    HistoryQuery,
    HistoryError,
>)
    requires
        days_ago >= 0 ==> days_ago * MILLIS_PER_DAY <= i64::MAX && now_ms - days_ago
            * MILLIS_PER_DAY >= i64::MIN,
    ensures
        match r {
            Ok(q) => {
                &&& days_ago >= 0
                &&& q.text@ == Seq::<char>::empty()
                &&& q.start_time == Some((now_ms - days_ago * MILLIS_PER_DAY) as i64)
                &&& q.max_results == Some(max_results)
            },
            Err(e) => e == HistoryError::InvalidArgument && days_ago < 0,
        },
        r matches Ok(q) ==> q.bounded_by(now_ms),
{
    let start = crate::timestamp::days_ago_millis(days_ago, now_ms)?;
    Ok(HistoryQuery { text: String::new(), start_time: Some(start), max_results: Some(max_results) })
}

} // verus!
