//! Errors a history lookup can surface to its caller.

use vstd::prelude::*;

verus! {

/// What a failed call reports.
///
/// Decoding never fails; these cover the two caller-visible failures:
/// a nonsensical argument, and the external provider failing to serve
/// a search.
#[derive(Clone, Copy, Debug, PartialEq, Eq, Structural)]
pub enum HistoryError {
    /// A negative count or duration was handed in.
    InvalidArgument,
    /// The external history provider failed or returned no result.
    ProviderFailure,
}

} // verus!
