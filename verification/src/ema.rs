//! Exponential moving average: a recursive weighted average that favours
//! recent samples.
//!
//! The series is seeded with the plain mean of the first `w` inputs,
//! aligned to absolute input index `w - 1`. Every later step blends the
//! next input with the previous average using the multiplier `2 / (w + 1)`:
//! in integer form, `EMA[k] = (2 * v[w-1+k] + (w - 1) * EMA[k-1]) / (w + 1)`
//! with division truncating toward zero. The output has one value per step,
//! `n - w + 1` in all.

use crate::arith::{
    lemma_sum_i64_bounds, lemma_sum_i64_nonneg, lemma_tdiv_bound, lemma_tdiv_nonneg, sum_i64, tdiv,
    tdiv_i128,
};
use crate::errors::AnalyticsError;
use crate::service::{
    all_prices_in_range, extract_signed_prices, price_i64_seq, prices_in_range, AnalyticsService,
    PRICE_LIMIT,
};
use crate::sma::MovingAveragePoint;
use crate::tick::Tick;
use vstd::prelude::*;

verus! {

/// Largest magnitude the engine accepts for an input value. Twice
/// [`PRICE_LIMIT`], so that a MACD line (a difference of two averages of
/// prices) is itself an acceptable input.
pub const EMA_INPUT_LIMIT: i64 = 2_000_000_000_000_000_000;

/// The exponential moving average at step `k`, which describes absolute
/// input index `w - 1 + k`. Step `0` is the mean of the first `w` inputs;
/// step `k` applies the blending recurrence to input `w - 1 + k`.
pub open spec fn ema_at(vals: Seq<i64>, w: int, k: int) -> int
    recommends
        1 <= w <= vals.len(),
        0 <= k <= vals.len() - w,
    decreases k,
{
    if k <= 0 {
        tdiv(sum_i64(vals, 0, w), w)
    } else {
        tdiv(2 * vals[w - 1 + k] + (w - 1) * ema_at(vals, w, k - 1), w + 1)
    }
}

/// Law: the average never escapes a symmetric bound that its inputs
/// respect. This is what keeps the whole MACD pipeline inside `i64`.
pub proof fn lemma_ema_bounded(vals: Seq<i64>, w: int, k: int, bound: int)
    requires
        1 <= w <= vals.len(),
        0 <= k,
        0 <= bound,
        forall|i: int| 0 <= i < vals.len() ==> -bound <= #[trigger] vals[i] <= bound,
        w - 1 + k < vals.len(),
    ensures
        -bound <= ema_at(vals, w, k) <= bound,
    decreases k,
{
    if k <= 0 {
        lemma_sum_i64_bounds(vals, 0, w, bound);
        lemma_tdiv_bound(sum_i64(vals, 0, w), w, bound);
    } else {
        lemma_ema_bounded(vals, w, k - 1, bound);
        let e = ema_at(vals, w, k - 1);
        let v = vals[w - 1 + k] as int;
        assert(-((w + 1) * bound) <= 2 * v + (w - 1) * e <= (w + 1) * bound) by (nonlinear_arith)
            requires
                -bound <= v <= bound,
                -bound <= e <= bound,
                w >= 1,
                bound >= 0,
        ;
        lemma_tdiv_bound(2 * v + (w - 1) * e, w + 1, bound);
    }
}

/// Law: the average of non-negative inputs is non-negative.
pub proof fn lemma_ema_nonneg(vals: Seq<i64>, w: int, k: int)
    requires
        1 <= w <= vals.len(),
        0 <= k,
        forall|i: int| 0 <= i < vals.len() ==> #[trigger] vals[i] >= 0,
        w - 1 + k < vals.len(),
    ensures
        ema_at(vals, w, k) >= 0,
    decreases k,
{
    if k <= 0 {
        lemma_sum_i64_nonneg(vals, 0, w);
        lemma_tdiv_nonneg(sum_i64(vals, 0, w), w);
    } else {
        lemma_ema_nonneg(vals, w, k - 1);
        let e = ema_at(vals, w, k - 1);
        let v = vals[w - 1 + k] as int;
        assert(2 * v + (w - 1) * e >= 0) by (nonlinear_arith)
            requires
                v >= 0,
                e >= 0,
                w >= 1,
        ;
        lemma_tdiv_nonneg(2 * v + (w - 1) * e, w + 1);
    }
}

/// The exponential moving average of a series: value `k` describes input
/// index `window - 1 + k`.
pub fn ema_series(vals: &Vec<i64>, window: usize) -> (out: Vec<i64>)
    requires
        1 <= window <= vals.len(),
        forall|i: int|
            0 <= i < vals@.len() ==> -EMA_INPUT_LIMIT <= #[trigger] vals@[i] <= EMA_INPUT_LIMIT,
    ensures
        out@.len() == vals@.len() - window + 1,
        forall|k: int| 0 <= k < out@.len() ==> out@[k] == ema_at(vals@, window as int, k),
{
    let ghost w = window as int;
    let ghost lim = EMA_INPUT_LIMIT as int;
    let mut acc: i128 = 0;
    let mut j: usize = 0;
    while j < window
        invariant
            window <= vals@.len(),
            j <= window,
            acc == sum_i64(vals@, 0, j as int),
            forall|i: int|
                0 <= i < vals@.len() ==> -EMA_INPUT_LIMIT <= #[trigger] vals@[i]
                    <= EMA_INPUT_LIMIT,
        decreases window - j,
    {
        proof {
            lemma_sum_i64_bounds(vals@, 0, j as int, EMA_INPUT_LIMIT as int);
            assert((j as int) * (EMA_INPUT_LIMIT as int) + EMA_INPUT_LIMIT < i128::MAX
                as int) by (nonlinear_arith)
                requires
                    0 <= j <= u64::MAX,
            ;
        }
        acc = acc + (vals[j] as i128);
        j = j + 1;
    }
    proof {
        lemma_sum_i64_bounds(vals@, 0, w, lim);
        assert(w * lim < i128::MAX as int) by (nonlinear_arith)
            requires
                0 <= w <= u64::MAX as int,
                lim == EMA_INPUT_LIMIT as int,
        ;
        lemma_tdiv_bound(acc as int, w, lim);
    }
    let seed: i128 = tdiv_i128(acc, window as u128);
    let mut out: Vec<i64> = Vec::new();
    out.push(seed as i64);
    let mut i: usize = window;
    while i < vals.len()
        invariant
            1 <= window <= vals@.len(),
            w == window as int,
            lim == EMA_INPUT_LIMIT as int,
            window <= i <= vals@.len(),
            out@.len() == i - window + 1,
            forall|k: int| 0 <= k < out@.len() ==> out@[k] == ema_at(vals@, w, k),
            forall|i2: int|
                0 <= i2 < vals@.len() ==> -EMA_INPUT_LIMIT <= #[trigger] vals@[i2]
                    <= EMA_INPUT_LIMIT,
        decreases vals@.len() - i,
    {
        let ghost k = i - w + 1;
        let prev: i64 = out[out.len() - 1];
        proof {
            lemma_ema_bounded(vals@, w, k - 1, lim);
            assert(-lim <= prev as int <= lim);
            assert(-((w - 1) * lim) <= (w - 1) * (prev as int) <= (w - 1) * lim)
                by (nonlinear_arith)
                requires
                    w >= 1,
                    -lim <= prev as int <= lim,
                    lim >= 0,
            ;
            assert((w - 1) * lim + 2 * lim < i128::MAX as int) by (nonlinear_arith)
                requires
                    1 <= w <= u64::MAX as int,
                    lim == EMA_INPUT_LIMIT as int,
            ;
        }
        let num: i128 = 2 * (vals[i] as i128) + ((window - 1) as i128) * (prev as i128);
        let next: i128 = tdiv_i128(num, (window as u128) + 1);
        proof {
            assert(next == ema_at(vals@, w, k));
            lemma_ema_bounded(vals@, w, k, lim);
        }
        out.push(next as i64);
        i = i + 1;
    }
    out
}

impl AnalyticsService {
    /// `GetEma`: the exponential moving average of the fetched series.
    ///
    /// An empty series is `NotFound`, checked before anything else; a
    /// zero window is `InvalidArgument`; a price beyond the fixed-point
    /// range is `Internal`; fewer ticks than the window is
    /// `InsufficientData`. Otherwise point `k` pairs the timestamp of
    /// tick `window - 1 + k` with the average at step `k`.
    pub fn get_ema(ticks: &Vec<Tick>, window_size: u32) -> (r: Result<
        Vec<MovingAveragePoint>,
        AnalyticsError,
    >)
        ensures
            ticks@.len() == 0 ==> r == Err::<Vec<MovingAveragePoint>, AnalyticsError>(
                AnalyticsError::NotFound,
            ),
            ticks@.len() > 0 && window_size == 0 ==> r == Err::<
                Vec<MovingAveragePoint>,
                AnalyticsError,
            >(AnalyticsError::InvalidArgument),
            ticks@.len() > 0 && window_size >= 1 && !prices_in_range(ticks@) ==> r == Err::<
                Vec<MovingAveragePoint>,
                AnalyticsError,
            >(AnalyticsError::Internal),
            ticks@.len() > 0 && window_size >= 1 && prices_in_range(ticks@) && ticks@.len()
                < window_size ==> r == Err::<Vec<MovingAveragePoint>, AnalyticsError>(
                AnalyticsError::InsufficientData,
            ),
            ticks@.len() > 0 && window_size >= 1 && prices_in_range(ticks@) && ticks@.len()
                >= window_size ==> (r matches Ok(pts) && pts@.len() == ticks@.len() - window_size
                + 1 && forall|k: int|
                0 <= k < pts@.len() ==> (#[trigger] pts@[k]).timestamp == ticks@[window_size - 1
                    + k].exchange_timestamp && pts@[k].value == ema_at(
                    price_i64_seq(ticks@),
                    window_size as int,
                    k,
                )),
    {
        if ticks.len() == 0 {
            return Err(AnalyticsError::NotFound);
        }
        if window_size == 0 {
            return Err(AnalyticsError::InvalidArgument);
        }
        if !all_prices_in_range(ticks) {
            return Err(AnalyticsError::Internal);
        }
        let window = window_size as usize;
        if ticks.len() < window {
            return Err(AnalyticsError::InsufficientData);
        }
        let vals = extract_signed_prices(ticks);
        let ghost w = window as int;
        proof {
            assert forall|i: int| 0 <= i < vals@.len() implies -EMA_INPUT_LIMIT
                <= #[trigger] vals@[i] <= EMA_INPUT_LIMIT by {
                assert(ticks@[i].price <= PRICE_LIMIT);
            }
        }
        let values = ema_series(&vals, window);
        let mut pts: Vec<MovingAveragePoint> = Vec::new();
        let mut k: usize = 0;
        while k < values.len()
            invariant
                1 <= window <= ticks@.len(),
                ticks@.len() <= usize::MAX,
                w == window as int,
                vals@ == price_i64_seq(ticks@),
                vals@.len() == ticks@.len(),
                values@.len() == ticks@.len() - window + 1,
                forall|j: int| 0 <= j < values@.len() ==> values@[j] == ema_at(vals@, w, j),
                forall|i: int| 0 <= i < vals@.len() ==> #[trigger] vals@[i] >= 0,
                forall|i: int|
                    0 <= i < vals@.len() ==> -PRICE_LIMIT <= #[trigger] vals@[i] <= PRICE_LIMIT,
                k <= values@.len(),
                pts@.len() == k,
                forall|j: int|
                    0 <= j < k ==> (#[trigger] pts@[j]).timestamp == ticks@[w - 1
                        + j].exchange_timestamp && pts@[j].value == ema_at(vals@, w, j),
            decreases values@.len() - k,
        {
            proof {
                lemma_ema_nonneg(vals@, w, k as int);
                lemma_ema_bounded(vals@, w, k as int, PRICE_LIMIT as int);
                assert(w - 1 + k < ticks@.len());
            }
            let value: u64 = values[k] as u64;
            pts.push(
                MovingAveragePoint { timestamp: ticks[window - 1 + k].exchange_timestamp, value },
            );
            k = k + 1;
        }
        Ok(pts)
    }
}

} // verus!
