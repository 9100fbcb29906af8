//! Moving average convergence/divergence.
//!
//! The MACD line is the fast exponential average minus the slow one,
//! aligned so that both describe the same input index: the fast series
//! starts `slow - fast` steps earlier, so that many of its leading entries
//! are dropped. The signal line is an exponential average of the MACD
//! line, and the histogram is the MACD line minus the signal line. Output
//! point `k` describes the tick at absolute index `slow + signal - 2 + k`.

use crate::ema::{ema_at, ema_series, lemma_ema_bounded, lemma_ema_nonneg, EMA_INPUT_LIMIT};
use crate::errors::AnalyticsError;
use crate::service::{
    all_prices_in_range, extract_signed_prices, price_i64_seq, prices_in_range, AnalyticsService,
    PRICE_LIMIT,
};
use crate::tick::Tick;
use vstd::prelude::*;

verus! {

/// One point of a MACD series.
#[derive(Debug, Clone, Copy, PartialEq, Eq, Structural)]
pub struct MacdPoint {
    /// Exchange timestamp of the tick the point describes, microseconds.
    pub timestamp: u64,
    /// Fast minus slow exponential average, fixed-point price units.
    pub macd_line: i64,
    /// Exponential average of the MACD line.
    pub signal_line: i64,
    /// MACD line minus signal line.
    pub histogram: i64,
}

/// Whether the three periods make a meaningful MACD request: positive
/// periods with the slow one strictly longer than the fast one.
pub open spec fn macd_params_valid(fast: u32, slow: u32, signal: u32) -> bool {
    1 <= fast && 1 <= signal && fast < slow
}

/// The MACD line at index `j` of the aligned series, which describes
/// absolute input index `slow - 1 + j`: the fast average there minus the
/// slow average there.
pub open spec fn macd_line_at(prices: Seq<i64>, fast: int, slow: int, j: int) -> int {
    ema_at(prices, fast, j + (slow - fast)) - ema_at(prices, slow, j)
}

/// The whole MACD line, one value per aligned index.
pub open spec fn macd_line_seq(prices: Seq<i64>, fast: int, slow: int) -> Seq<i64> {
    Seq::new((prices.len() - slow + 1) as nat, |j: int| macd_line_at(prices, fast, slow, j) as i64)
}

/// The signal line at step `k`: an exponential average of the MACD line.
pub open spec fn signal_at(prices: Seq<i64>, fast: int, slow: int, signal: int, k: int) -> int {
    ema_at(macd_line_seq(prices, fast, slow), signal, k)
}

impl AnalyticsService {
    /// `GetMacd`: MACD line, signal line and histogram over the fetched
    /// series.
    ///
    /// An empty series is `NotFound`, checked first. Non-positive fast or
    /// signal periods, or a slow period not longer than the fast one, are
    /// `InvalidArgument`. A price beyond the fixed-point range is
    /// `Internal`. A series of `n` ticks yields exactly
    /// `n - (slow + signal - 2)` points when `n` exceeds
    /// `slow + signal - 2`, and `InsufficientData` otherwise.
    pub fn get_macd(ticks: &Vec<Tick>, fast_period: u32, slow_period: u32, signal_period: u32) -> (r:
        Result<Vec<MacdPoint>, AnalyticsError>)
        ensures
            ticks@.len() == 0 ==> r == Err::<Vec<MacdPoint>, AnalyticsError>(
                AnalyticsError::NotFound,
            ),
            ticks@.len() > 0 && !macd_params_valid(fast_period, slow_period, signal_period) ==> r
                == Err::<Vec<MacdPoint>, AnalyticsError>(AnalyticsError::InvalidArgument),
            ticks@.len() > 0 && macd_params_valid(fast_period, slow_period, signal_period)
                && !prices_in_range(ticks@) ==> r == Err::<Vec<MacdPoint>, AnalyticsError>(
                AnalyticsError::Internal,
            ),
            ticks@.len() > 0 && macd_params_valid(fast_period, slow_period, signal_period)
                && prices_in_range(ticks@) && ticks@.len() <= slow_period + signal_period - 2
                ==> r == Err::<Vec<MacdPoint>, AnalyticsError>(AnalyticsError::InsufficientData),
            ticks@.len() > 0 && macd_params_valid(fast_period, slow_period, signal_period)
                && prices_in_range(ticks@) && ticks@.len() > slow_period + signal_period - 2 ==> (
            r matches Ok(pts) && pts@.len() == ticks@.len() - (slow_period + signal_period - 2)
                && forall|k: int|
                0 <= k < pts@.len() ==> (#[trigger] pts@[k]).timestamp == ticks@[slow_period
                    + signal_period - 2 + k].exchange_timestamp && pts@[k].macd_line
                    == macd_line_at(
                    price_i64_seq(ticks@),
                    fast_period as int,
                    slow_period as int,
                    signal_period - 1 + k,
                ) && pts@[k].signal_line == signal_at(
                    price_i64_seq(ticks@),
                    fast_period as int,
                    slow_period as int,
                    signal_period as int,
                    k,
                ) && pts@[k].histogram == pts@[k].macd_line - pts@[k].signal_line),
    {
        let n = ticks.len();
        if n == 0 {
            return Err(AnalyticsError::NotFound);
        }
        if fast_period == 0 || signal_period == 0 || slow_period <= fast_period {
            return Err(AnalyticsError::InvalidArgument);
        }
        if !all_prices_in_range(ticks) {
            return Err(AnalyticsError::Internal);
        }
        let f = fast_period as usize;
        let s = slow_period as usize;
        let g = signal_period as usize;
        if n < s {
            return Err(AnalyticsError::InsufficientData);
        }
        let mlen = n - s + 1;
        if mlen < g {
            return Err(AnalyticsError::InsufficientData);
        }
        let ghost fi = f as int;
        let ghost si = s as int;
        let ghost gi = g as int;
        let vals = extract_signed_prices(ticks);
        proof {
            assert forall|i: int| 0 <= i < vals@.len() implies -EMA_INPUT_LIMIT
                <= #[trigger] vals@[i] <= EMA_INPUT_LIMIT by {
                assert(ticks@[i].price <= PRICE_LIMIT);
            }
            assert forall|i: int| 0 <= i < vals@.len() implies 0 <= #[trigger] vals@[i]
                <= PRICE_LIMIT by {
                assert(ticks@[i].price <= PRICE_LIMIT);
            }
        }
        let ema_fast = ema_series(&vals, f);
        let ema_slow = ema_series(&vals, s);
        let shift = s - f;
        let mut macd: Vec<i64> = Vec::new();
        let mut j: usize = 0;
        while j < mlen
            invariant
                1 <= f < s <= n,
                1 <= g <= mlen,
                mlen == n - s + 1,
                shift == s - f,
                fi == f as int,
                si == s as int,
                n == ticks@.len(),
                vals@ == price_i64_seq(ticks@),
                vals@.len() == n,
                forall|i: int| 0 <= i < vals@.len() ==> 0 <= #[trigger] vals@[i] <= PRICE_LIMIT,
                ema_fast@.len() == n - f + 1,
                forall|x: int| 0 <= x < ema_fast@.len() ==> ema_fast@[x] == ema_at(vals@, fi, x),
                ema_slow@.len() == n - s + 1,
                forall|x: int| 0 <= x < ema_slow@.len() ==> ema_slow@[x] == ema_at(vals@, si, x),
                j <= mlen,
                macd@.len() == j,
                forall|x: int|
                    0 <= x < j ==> #[trigger] macd@[x] == macd_line_at(vals@, fi, si, x),
                forall|x: int| 0 <= x < j ==> -PRICE_LIMIT <= #[trigger] macd@[x] <= PRICE_LIMIT,
            decreases mlen - j,
        {
            proof {
                lemma_ema_nonneg(vals@, fi, j + shift);
                lemma_ema_bounded(vals@, fi, j + shift, PRICE_LIMIT as int);
                lemma_ema_nonneg(vals@, si, j as int);
                lemma_ema_bounded(vals@, si, j as int, PRICE_LIMIT as int);
            }
            let mv: i64 = ema_fast[j + shift] - ema_slow[j];
            macd.push(mv);
            j = j + 1;
        }
        proof {
            assert(macd@ =~= macd_line_seq(vals@, fi, si));
        }
        let sig = ema_series(&macd, g);
        let plen = mlen - g + 1;
        let mut pts: Vec<MacdPoint> = Vec::new();
        let mut k: usize = 0;
        while k < plen
            invariant
                1 <= f < s <= n,
                1 <= g <= mlen,
                mlen == n - s + 1,
                plen == mlen - g + 1,
                fi == f as int,
                si == s as int,
                gi == g as int,
                n == ticks@.len(),
                vals@ == price_i64_seq(ticks@),
                macd@.len() == mlen,
                macd@ == macd_line_seq(vals@, fi, si),
                forall|x: int| 0 <= x < mlen ==> #[trigger] macd@[x] == macd_line_at(vals@, fi, si, x),
                forall|x: int| 0 <= x < mlen ==> -PRICE_LIMIT <= #[trigger] macd@[x] <= PRICE_LIMIT,
                sig@.len() == plen,
                forall|x: int| 0 <= x < sig@.len() ==> sig@[x] == ema_at(macd@, gi, x),
                k <= plen,
                pts@.len() == k,
                forall|x: int|
                    0 <= x < k ==> (#[trigger] pts@[x]).timestamp == ticks@[si + gi - 2
                        + x].exchange_timestamp && pts@[x].macd_line == macd_line_at(
                        vals@,
                        fi,
                        si,
                        gi - 1 + x,
                    ) && pts@[x].signal_line == signal_at(vals@, fi, si, gi, x) && pts@[x].histogram
                        == pts@[x].macd_line - pts@[x].signal_line,
            decreases plen - k,
        {
            proof {
                lemma_ema_bounded(macd@, gi, k as int, PRICE_LIMIT as int);
            }
            let mval: i64 = macd[g - 1 + k];
            let sval: i64 = sig[k];
            let hist: i64 = mval - sval;
            let ts: u64 = ticks[s - 1 + (g - 1) + k].exchange_timestamp;
            pts.push(
                MacdPoint { timestamp: ts, macd_line: mval, signal_line: sval, histogram: hist },
            );
            k = k + 1;
        }
        Ok(pts)
    }
}

} // verus!
