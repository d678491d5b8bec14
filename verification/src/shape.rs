//! Normalization of raw history entries into plain records.
//!
//! A raw entry may lack any field; normalization fills documented
//! defaults, percent-decodes the URL, and keeps the provider's order.

use vstd::prelude::*;
use vstd::utf8::encode_utf8;
use crate::error::HistoryError;
use crate::percent::{decode, escape_free, lossy_utf8_of, spec_decode};

verus! {

/// One visited-URL record as the external provider reports it; any
/// field may be absent.
#[derive(Clone, Debug, PartialEq, Eq)]
pub struct HistoryEntry {
    /// The page's URL, possibly percent-encoded.
    pub url: Option<String>,
    /// The page's title when it was last loaded.
    pub title: Option<String>,
    /// How often the page was visited.
    pub visit_count: Option<u32>,
    /// When the page was last loaded, in epoch milliseconds.
    pub last_visit_time: Option<i64>,
}

/// A history record with every field present: the URL percent-decoded,
/// absent fields replaced by their defaults.
#[derive(Clone, Debug, PartialEq, Eq)]
pub struct NormalizedEntry {
    pub url: String,
    pub title: String,
    pub visit_count: u32,
    pub last_visit_time: i64,
}

/// The URL text a raw entry carries, the empty text when absent.
pub open spec fn spec_raw_url(e: HistoryEntry) -> Seq<char> {
    match e.url {
        Some(u) => u@,
        None => Seq::<char>::empty(),
    }
}

/// What normalizing one raw entry yields: the URL percent-decoded and
/// read as UTF-8, the title defaulted to empty, the counts and times
/// defaulted to zero.
pub open spec fn is_normalization_of(n: NormalizedEntry, e: HistoryEntry) -> bool {
    &&& n.url@ == lossy_utf8_of(spec_decode(encode_utf8(spec_raw_url(e))))
    &&& vstd::utf8::valid_utf8(spec_decode(encode_utf8(spec_raw_url(e)))) ==> n.url@
        == vstd::utf8::decode_utf8(spec_decode(encode_utf8(spec_raw_url(e))))
    &&& n.title@ == match e.title {
        Some(t) => t@,
        None => Seq::<char>::empty(),
    }
    &&& n.visit_count == match e.visit_count {
        Some(v) => v,
        None => 0u32,
    }
    &&& n.last_visit_time == match e.last_visit_time {
        Some(t) => t,
        None => 0i64,
    }
}

/// Normalizes one raw entry: fills the defaults and percent-decodes
/// the URL. A URL with no `%XX` escape comes through unchanged.
pub fn normalize_entry(entry: &HistoryEntry) -> (n: NormalizedEntry)
    ensures
        is_normalization_of(n, *entry),
        escape_free(spec_raw_url(*entry)) ==> n.url@ == spec_raw_url(*entry),
{
    let url = match &entry.url {
        Some(u) => decode(u.as_str()),
        None => {
            let r = decode("");
            proof {
                reveal_strlit("");
                assert(""@ =~= Seq::<char>::empty());
            }
            r
        },
    };
    let title = match &entry.title {
        Some(t) => t.clone(),
        None => String::new(),
    };
    let visit_count = match entry.visit_count {
        Some(v) => v,
        None => 0,
    };
    let last_visit_time = match entry.last_visit_time {
        Some(t) => t,
        None => 0,
    };
    NormalizedEntry { url, title, visit_count, last_visit_time }
}

/// Normalizes a list of raw entries, one output per input, in the
/// provider's order: no filtering, no deduplication, no reordering.
pub fn normalize(entries: &Vec<HistoryEntry>) -> (out: Vec<NormalizedEntry>)
    ensures
        out@.len() == entries@.len(),
        forall|i: int| 0 <= i < entries@.len() ==> is_normalization_of(out@[i], entries@[i]),
        forall|i: int|
            0 <= i < entries@.len() && escape_free(spec_raw_url(entries@[i])) ==> out@[i].url@
                == spec_raw_url(entries@[i]),
{
    let mut out: Vec<NormalizedEntry> = Vec::new();
    let mut i: usize = 0;
    while i < entries.len()
        invariant
            i <= entries.len(),
            out@.len() == i,
            forall|j: int| 0 <= j < i ==> is_normalization_of(out@[j], entries@[j]),
            forall|j: int|
                0 <= j < i && escape_free(spec_raw_url(entries@[j])) ==> out@[j].url@
                    == spec_raw_url(entries@[j]),
        decreases entries.len() - i,
    {
        let n = normalize_entry(&entries[i]);
        out.push(n);
        i = i + 1;
    }
    out
}

/// Shapes the outcome of a provider search: a served list is
/// normalized in order, a failed call surfaces as `ProviderFailure`
/// for the caller to report and carry on.
pub fn normalize_search_result(outcome: Option<Vec<HistoryEntry>>) -> (r: Result<
    Vec<NormalizedEntry>,
    HistoryError,
>)
    ensures
        match r {
            Ok(out) => {
                &&& outcome matches Some(entries)
                &&& out@.len() == entries@.len()
                &&& forall|i: int|
                    0 <= i < entries@.len() ==> is_normalization_of(out@[i], entries@[i])
            },
            Err(e) => e == HistoryError::ProviderFailure && outcome is None,
        },
{
    match outcome {
        Some(entries) => Ok(normalize(&entries)),
        None => Err(HistoryError::ProviderFailure),
    }
}

} // verus!
