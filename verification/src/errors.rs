//! Error taxonomy of the analytics service.

use vstd::prelude::*;

verus! {

/// Typed failures of the analytics service.
///
/// `NotFound` answers a range query with an empty result; `InvalidArgument`
/// rejects a non-positive window or period or a malformed symbol;
/// `InsufficientData` reports fewer ticks than a window or period requires;
/// `Internal` covers store or transport failures and values outside the
/// fixed-point range; `Decode` marks a malformed transport message, which is
/// skipped locally and never ends a subscription.
#[derive(Debug, Clone, Copy, PartialEq, Eq, Structural)]
pub enum AnalyticsError {
    NotFound,
    InvalidArgument,
    InsufficientData,
    Internal,
    Decode,
}

impl AnalyticsError {
    /// Short display label for logs and responses.
    pub fn describe(&self) -> (s: &'static str)
        ensures
            *self is NotFound ==> s@ == "not found"@,
            *self is InvalidArgument ==> s@ == "invalid argument"@,
            *self is InsufficientData ==> s@ == "insufficient data"@,
            *self is Internal ==> s@ == "internal error"@,
            *self is Decode ==> s@ == "decode error"@,
    {
        match self {
            AnalyticsError::NotFound => "not found",
            AnalyticsError::InvalidArgument => "invalid argument",
            AnalyticsError::InsufficientData => "insufficient data",
            AnalyticsError::Internal => "internal error",
            AnalyticsError::Decode => "decode error",
        }
    }
}

} // verus!
