//! Simple moving average over a trailing window.
//!
//! Every input index yields one output point. The first `window - 1`
//! points average a partial window (fewer than `window` samples); from
//! index `window - 1` onward the window is full. Means round down.

use crate::arith::{
    lemma_mean_in_range, lemma_scale_bound, lemma_sum_u64_bounds, lemma_sum_u64_drop_front,
    sum_u64,
};
use crate::errors::AnalyticsError;
use crate::service::{price_seq, time_seq, AnalyticsService};
use crate::tick::Tick;
use vstd::prelude::*;

verus! {

/// One point of a moving-average series.
#[derive(Debug, Clone, Copy, PartialEq, Eq, Structural)]
pub struct MovingAveragePoint {
    /// Exchange timestamp of the tick the point describes, microseconds.
    pub timestamp: u64,
    /// Average in fixed-point price units, rounded down.
    pub value: u64,
}

/// First index of the trailing window of width `w` that ends at index `i`.
pub open spec fn window_start(i: int, w: int) -> int {
    if i + 1 >= w {
        i + 1 - w
    } else {
        0
    }
}

/// The simple moving average at index `i`: the mean of the at most `w`
/// prices up to and including `i`, rounded down.
pub open spec fn sma_at(prices: Seq<u64>, w: int, i: int) -> int {
    sum_u64(prices, window_start(i, w), i + 1) / (i + 1 - window_start(i, w))
}

/// Law: with a window of one, the moving average reproduces the price
/// series unchanged.
pub proof fn lemma_sma_window_one(prices: Seq<u64>, i: int)
    requires
        0 <= i < prices.len(),
    ensures
        sma_at(prices, 1, i) == prices[i],
{
    assert(sum_u64(prices, i, i + 1) == sum_u64(prices, i, i) + prices[i]);
    vstd::arithmetic::div_mod::lemma_div_multiples_vanish(prices[i] as int, 1);
    assert(1 * (prices[i] as int) == prices[i] as int);
}

/// The moving-average series of a price series: one value per input
/// price, each the mean of its trailing window.
pub fn sma_series(prices: &Vec<u64>, window: usize) -> (out: Vec<u64>)
    requires
        window >= 1,
    ensures
        out@.len() == prices@.len(),
        forall|i: int| 0 <= i < out@.len() ==> out@[i] == sma_at(prices@, window as int, i),
{
    let ghost w = window as int;
    let mut out: Vec<u64> = Vec::new();
    let mut sum: u128 = 0;
    let mut i: usize = 0;
    while i < prices.len()
        invariant
            window >= 1,
            w == window as int,
            i <= prices@.len(),
            out@.len() == i,
            forall|j: int| 0 <= j < i ==> out@[j] == sma_at(prices@, w, j),
            sum == sum_u64(prices@, if i >= window { i - window } else { 0 }, i as int),
        decreases prices@.len() - i,
    {
        let ghost lo = if i >= window { i - window } else { 0int };
        proof {
            lemma_sum_u64_bounds(prices@, lo, i as int);
            lemma_scale_bound(i - lo, w, u64::MAX as int);
            assert((w + 1) * (u64::MAX as int) + 1 <= u128::MAX as int) by (nonlinear_arith)
                requires
                    1 <= w <= u64::MAX,
            ;
        }
        sum = sum + (prices[i] as u128);
        if i >= window {
            proof {
                lemma_sum_u64_drop_front(prices@, lo, i + 1);
                lemma_sum_u64_bounds(prices@, lo + 1, i + 1);
            }
            sum = sum - (prices[i - window] as u128);
        }
        let count: usize = if i + 1 >= window {
            window
        } else {
            i + 1
        };
        proof {
            assert(count as int == i + 1 - window_start(i as int, w));
            lemma_sum_u64_bounds(prices@, window_start(i as int, w), i + 1);
            lemma_mean_in_range(sum as int, count as int, u64::MAX as int);
        }
        let value: u64 = (sum / (count as u128)) as u64;
        out.push(value);
        i = i + 1;
    }
    out
}

impl AnalyticsService {
    /// `GetMovingAverage`: the simple moving average of the fetched series.
    ///
    /// An empty series is `NotFound`, checked first; a zero window is
    /// `InvalidArgument`. Otherwise the answer pairs every tick's
    /// timestamp with its trailing-window mean: one point per tick, with
    /// no truncation for partial windows.
    pub fn get_moving_average(ticks: &Vec<Tick>, window_size: u32) -> (r: Result<
        Vec<MovingAveragePoint>,
        AnalyticsError,
    >)
        ensures
            ticks@.len() == 0 ==> r == Err::<Vec<MovingAveragePoint>, AnalyticsError>(
                AnalyticsError::NotFound,
            ),
            ticks@.len() > 0 && window_size == 0 ==> r == Err::<
                Vec<MovingAveragePoint>,
                AnalyticsError,
            >(AnalyticsError::InvalidArgument),
            ticks@.len() > 0 && window_size >= 1 ==> (r matches Ok(pts) && pts@.len()
                == ticks@.len() && forall|i: int|
                0 <= i < pts@.len() ==> (#[trigger] pts@[i]).timestamp
                    == ticks@[i].exchange_timestamp && pts@[i].value == sma_at(
                    price_seq(ticks@),
                    window_size as int,
                    i,
                )),
    {
        if ticks.len() == 0 {
            return Err(AnalyticsError::NotFound);
        }
        if window_size == 0 {
            return Err(AnalyticsError::InvalidArgument);
        }
        let prices = crate::service::extract_prices(ticks);
        let times = crate::service::extract_timestamps(ticks);
        let values = sma_series(&prices, window_size as usize);
        let mut pts: Vec<MovingAveragePoint> = Vec::new();
        let mut i: usize = 0;
        while i < values.len()
            invariant
                values@.len() == ticks@.len(),
                times@ == time_seq(ticks@),
                i <= values@.len(),
                pts@.len() == i,
                forall|j: int|
                    0 <= j < i ==> (#[trigger] pts@[j]).timestamp == ticks@[j].exchange_timestamp
                        && pts@[j].value == values@[j],
            decreases values@.len() - i,
        {
            pts.push(MovingAveragePoint { timestamp: times[i], value: values[i] });
            i = i + 1;
        }
        Ok(pts)
    }
}

} // verus!
