//! Volume-weighted average price over a tick series.
//!
//! `total_volume_in_quotes` is the sum of `price * quantity` over the
//! series, `vwap` that sum divided by the total quantity, and
//! `trades_count` the number of ticks. The order of the ticks does not
//! matter.

use crate::errors::AnalyticsError;
use crate::service::AnalyticsService;
use crate::tick::Tick;
use vstd::arithmetic::mul::lemma_mul_upper_bound;
use vstd::prelude::*;

verus! {

/// Aggregate answer of a trade-analytics request.
#[derive(Debug, Clone, Copy, PartialEq, Eq, Structural)]
pub struct TradeAnalytics {
    /// Sum of `price * quantity` over the series, in quote fixed-point units.
    pub total_volume_in_quotes: u128,
    /// Total volume divided by total quantity, rounded down.
    pub vwap: u128,
    /// Number of ticks aggregated.
    pub trades_count: u64,
}

/// Sum of `price * quantity` over the first `n` ticks, as an unbounded
/// integer.
pub open spec fn sum_pq(ticks: Seq<Tick>, n: int) -> int
    decreases n,
{
    if n <= 0 {
        0
    } else {
        sum_pq(ticks, n - 1) + ticks[n - 1].price * ticks[n - 1].quantity
    }
}

/// Sum of `quantity` over the first `n` ticks, as an unbounded integer.
pub open spec fn sum_q(ticks: Seq<Tick>, n: int) -> int
    decreases n,
{
    if n <= 0 {
        0
    } else {
        sum_q(ticks, n - 1) + ticks[n - 1].quantity
    }
}

/// Both running sums grow monotonically: prices and quantities are
/// non-negative, so a prefix sum never exceeds the total.
pub proof fn lemma_vwap_sums_monotone(ticks: Seq<Tick>, i: int, n: int)
    requires
        0 <= i <= n,
        n <= ticks.len(),
    ensures
        sum_pq(ticks, i) <= sum_pq(ticks, n),
        sum_q(ticks, i) <= sum_q(ticks, n),
        0 <= sum_pq(ticks, i),
        0 <= sum_q(ticks, i),
    decreases n,
{
    if n > 0 && i < n {
        lemma_vwap_sums_monotone(ticks, i, n - 1);
        assert(ticks[n - 1].price * ticks[n - 1].quantity >= 0) by (nonlinear_arith);
    } else if n > 0 {
        lemma_vwap_sums_monotone(ticks, 0, n - 1);
        assert(ticks[n - 1].price * ticks[n - 1].quantity >= 0) by (nonlinear_arith);
    }
}

/// The quantity sum of `n` ticks stays within `n * u64::MAX`.
pub proof fn lemma_sum_q_bound(ticks: Seq<Tick>, n: int)
    requires
        0 <= n <= ticks.len(),
    ensures
        sum_q(ticks, n) <= n * u64::MAX,
    decreases n,
{
    if n > 0 {
        lemma_sum_q_bound(ticks, n - 1);
        assert((n - 1) * u64::MAX + u64::MAX == n * u64::MAX) by (nonlinear_arith);
    }
}

impl AnalyticsService {
    /// `GetTradeAnalytics`: aggregate volume, VWAP and trade count over the
    /// fetched series.
    ///
    /// An empty series is `NotFound`, checked before any arithmetic. A
    /// series whose exact quote volume exceeds `u128`, or whose total
    /// quantity is zero (which would divide by zero), is `Internal`:
    /// arithmetic edge cases surface as typed errors, never as a panic.
    pub fn get_trade_analytics(ticks: &Vec<Tick>) -> (r: Result<TradeAnalytics, AnalyticsError>)
        ensures
            ticks@.len() == 0 ==> r == Err::<TradeAnalytics, AnalyticsError>(
                AnalyticsError::NotFound,
            ),
            ticks@.len() > 0 && sum_pq(ticks@, ticks@.len() as int) <= u128::MAX && sum_q(
                ticks@,
                ticks@.len() as int,
            ) > 0 ==> r == Ok::<TradeAnalytics, AnalyticsError>(
                (TradeAnalytics {
                    total_volume_in_quotes: sum_pq(ticks@, ticks@.len() as int) as u128,
                    vwap: (sum_pq(ticks@, ticks@.len() as int) / sum_q(
                        ticks@,
                        ticks@.len() as int,
                    )) as u128,
                    trades_count: ticks@.len() as u64,
                }),
            ),
            ticks@.len() > 0 && (sum_pq(ticks@, ticks@.len() as int) > u128::MAX || sum_q(
                ticks@,
                ticks@.len() as int,
            ) == 0) ==> r == Err::<TradeAnalytics, AnalyticsError>(AnalyticsError::Internal),
    {
        let n = ticks.len();
        if n == 0 {
            return Err(AnalyticsError::NotFound);
        }
        let mut total: u128 = 0;
        let mut qty: u128 = 0;
        let mut i: usize = 0;
        while i < n
            invariant
                n == ticks@.len(),
                i <= n,
                total == sum_pq(ticks@, i as int),
                qty == sum_q(ticks@, i as int),
            decreases n - i,
        {
            let p = ticks[i].price;
            let q = ticks[i].quantity;
            proof {
                lemma_mul_upper_bound(p as int, u64::MAX as int, q as int, u64::MAX as int);
                assert((u64::MAX as int) * (u64::MAX as int) < u128::MAX as int) by (nonlinear_arith);
            }
            let prod: u128 = (p as u128) * (q as u128);
            if prod > u128::MAX - total {
                proof {
                    lemma_vwap_sums_monotone(ticks@, i + 1, n as int);
                }
                return Err(AnalyticsError::Internal);
            }
            total = total + prod;
            proof {
                lemma_sum_q_bound(ticks@, i + 1);
                assert((i + 1) * (u64::MAX as int) <= (u64::MAX as int) * (u64::MAX as int))
                    by (nonlinear_arith)
                    requires
                        0 <= i,
                        i + 1 <= u64::MAX,
                ;
                assert((u64::MAX as int) * (u64::MAX as int) < u128::MAX as int) by (nonlinear_arith);
            }
            qty = qty + (q as u128);
            i = i + 1;
        }
        if qty == 0 {
            return Err(AnalyticsError::Internal);
        }
        let vwap: u128 = total / qty;
        Ok(TradeAnalytics { total_volume_in_quotes: total, vwap, trades_count: n as u64 })
    }
}

} // verus!
