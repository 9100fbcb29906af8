//! The analytics service: the validated entry points of the library.
//!
//! Each endpoint takes the tick series that the store adapter fetched for
//! the request's symbol and time range, validates the request, runs the
//! indicator engine and reports a typed error otherwise. The endpoints are
//! pure: fetching ticks and carrying responses are the caller's work.

use crate::errors::AnalyticsError;
use crate::subject::{is_valid_symbol, valid_symbol};
use crate::tick::Tick;
use vstd::prelude::*;

verus! {

/// Largest fixed-point price the moving-average engine accepts.
///
/// Keeping prices within this range keeps every exponential moving average,
/// MACD line, signal line and histogram value representable in `i64` with no
/// run-time checks inside the engine. With a scale of 10^-8 units it covers
/// prices up to ten billion.
pub const PRICE_LIMIT: u64 = 1_000_000_000_000_000_000;

/// The analytics service; all endpoints are associated functions.
pub struct AnalyticsService;

/// Whether the series is ordered by exchange timestamp, ascending, with
/// duplicates permitted; the order the store adapter promises.
pub open spec fn sorted_by_time(ticks: Seq<Tick>) -> bool {
    forall|i: int, j: int|
        0 <= i <= j < ticks.len() ==> #[trigger] ticks[i].exchange_timestamp
            <= #[trigger] ticks[j].exchange_timestamp
}

/// Whether every price of the series lies within [`PRICE_LIMIT`].
pub open spec fn prices_in_range(ticks: Seq<Tick>) -> bool {
    forall|i: int| 0 <= i < ticks.len() ==> #[trigger] ticks[i].price <= PRICE_LIMIT
}

/// The prices of a tick series, in series order.
pub open spec fn price_seq(ticks: Seq<Tick>) -> Seq<u64> {
    Seq::new(ticks.len(), |i: int| ticks[i].price)
}

/// The exchange timestamps of a tick series, in series order.
pub open spec fn time_seq(ticks: Seq<Tick>) -> Seq<u64> {
    Seq::new(ticks.len(), |i: int| ticks[i].exchange_timestamp)
}

impl AnalyticsService {
    /// Validates the request fields every indicator query carries before
    /// any fetch: a malformed symbol is `InvalidArgument`.
    pub fn validate_query(symbol: &Vec<u8>) -> (r: Result<(), AnalyticsError>)
        ensures
            valid_symbol(symbol@) ==> r == Ok::<(), AnalyticsError>(()),
            !valid_symbol(symbol@) ==> r == Err::<(), AnalyticsError>(
                AnalyticsError::InvalidArgument,
            ),
    {
        if is_valid_symbol(symbol) {
            Ok(())
        } else {
            Err(AnalyticsError::InvalidArgument)
        }
    }
}

/// The prices of a tick series as signed fixed-point values, the form the
/// exponential-average engine computes on. Meaningful when
/// [`prices_in_range`] holds.
pub open spec fn price_i64_seq(ticks: Seq<Tick>) -> Seq<i64> {
    Seq::new(ticks.len(), |i: int| ticks[i].price as i64)
}

/// The price column of a tick series, as signed fixed-point values.
pub fn extract_signed_prices(ticks: &Vec<Tick>) -> (out: Vec<i64>)
    requires
        prices_in_range(ticks@),
    ensures
        out@ == price_i64_seq(ticks@),
{
    let mut out: Vec<i64> = Vec::new();
    let mut i: usize = 0;
    while i < ticks.len()
        invariant
            prices_in_range(ticks@),
            i <= ticks.len(),
            out@ == price_i64_seq(ticks@).take(i as int),
        decreases ticks.len() - i,
    {
        assert(ticks@[i as int].price <= PRICE_LIMIT);
        out.push(ticks[i].price as i64);
        proof {
            assert(out@ =~= price_i64_seq(ticks@).take(i + 1 as int));
        }
        i = i + 1;
    }
    proof {
        assert(out@ =~= price_i64_seq(ticks@));
    }
    out
}

/// The price column of a tick series.
pub fn extract_prices(ticks: &Vec<Tick>) -> (out: Vec<u64>)
    ensures
        out@ == price_seq(ticks@),
{
    let mut out: Vec<u64> = Vec::new();
    let mut i: usize = 0;
    while i < ticks.len()
        invariant
            i <= ticks.len(),
            out@ == price_seq(ticks@).take(i as int),
        decreases ticks.len() - i,
    {
        out.push(ticks[i].price);
        proof {
            assert(out@ =~= price_seq(ticks@).take(i + 1 as int));
        }
        i = i + 1;
    }
    proof {
        assert(out@ =~= price_seq(ticks@));
    }
    out
}

/// The exchange-timestamp column of a tick series.
pub fn extract_timestamps(ticks: &Vec<Tick>) -> (out: Vec<u64>)
    ensures
        out@ == time_seq(ticks@),
{
    let mut out: Vec<u64> = Vec::new();
    let mut i: usize = 0;
    while i < ticks.len()
        invariant
            i <= ticks.len(),
            out@ == time_seq(ticks@).take(i as int),
        decreases ticks.len() - i,
    {
        out.push(ticks[i].exchange_timestamp);
        proof {
            assert(out@ =~= time_seq(ticks@).take(i + 1 as int));
        }
        i = i + 1;
    }
    proof {
        assert(out@ =~= time_seq(ticks@));
    }
    out
}

/// Runtime check of [`sorted_by_time`], for callers that receive a series
/// from outside.
pub fn is_sorted_by_time(ticks: &Vec<Tick>) -> (r: bool)
    ensures
        r == sorted_by_time(ticks@),
{
    let mut i: usize = 1;
    while i < ticks.len()
        invariant
            i >= 1,
            i <= ticks.len() || ticks.len() == 0,
            forall|a: int, b: int|
                0 <= a <= b < i && b < ticks@.len() ==> #[trigger] ticks@[a].exchange_timestamp
                    <= #[trigger] ticks@[b].exchange_timestamp,
        decreases ticks.len() - i,
    {
        if ticks[i - 1].exchange_timestamp > ticks[i].exchange_timestamp {
            return false;
        }
        i = i + 1;
    }
    true
}

/// Runtime check of [`prices_in_range`], for callers that receive a series
/// from outside.
pub fn all_prices_in_range(ticks: &Vec<Tick>) -> (r: bool)
    ensures
        r == prices_in_range(ticks@),
{
    let mut i: usize = 0;
    while i < ticks.len()
        invariant
            i <= ticks.len(),
            forall|a: int| 0 <= a < i ==> #[trigger] ticks@[a].price <= PRICE_LIMIT,
        decreases ticks.len() - i,
    {
        if ticks[i].price > PRICE_LIMIT {
            return false;
        }
        i = i + 1;
    }
    true
}

} // verus!
