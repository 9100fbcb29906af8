//! Integer arithmetic used by the indicator engine: truncating division and
//! sums over sequences, with the bounds the engine needs to stay inside its
//! machine types.

use vstd::arithmetic::div_mod::{
    lemma_div_nonincreasing, lemma_div_pos_is_pos, lemma_multiply_divide_le,
};
use vstd::arithmetic::mul::lemma_mul_inequality;
use vstd::prelude::*;

verus! {

/// Division rounding toward zero, the semantics of the engine's `/`.
pub open spec fn tdiv(a: int, b: int) -> int
    recommends
        b >= 1,
{
    if a >= 0 {
        a / b
    } else {
        -((-a) / b)
    }
}

/// Sum of the elements of `s` with indices in `[lo, hi)`, as unbounded
/// integers.
pub open spec fn sum_u64(s: Seq<u64>, lo: int, hi: int) -> int
    decreases hi - lo,
{
    if hi <= lo {
        0
    } else {
        sum_u64(s, lo, hi - 1) + s[hi - 1]
    }
}

/// Sum of the elements of `s` with indices in `[lo, hi)`, as unbounded
/// integers.
pub open spec fn sum_i64(s: Seq<i64>, lo: int, hi: int) -> int
    decreases hi - lo,
{
    if hi <= lo {
        0
    } else {
        sum_i64(s, lo, hi - 1) + s[hi - 1]
    }
}

/// A sum of `hi - lo` values out of `[0, u64::MAX]` lies in
/// `[0, (hi - lo) * u64::MAX]`.
pub proof fn lemma_sum_u64_bounds(s: Seq<u64>, lo: int, hi: int)
    requires
        0 <= lo <= hi,
        hi <= s.len(),
    ensures
        0 <= sum_u64(s, lo, hi),
        sum_u64(s, lo, hi) <= (hi - lo) * u64::MAX,
    decreases hi - lo,
{
    if hi <= lo {
    } else {
        lemma_sum_u64_bounds(s, lo, hi - 1);
        assert((hi - 1 - lo) * u64::MAX + u64::MAX == (hi - lo) * u64::MAX) by (nonlinear_arith);
    }
}

/// A sum of `hi - lo` values each within `[-bound, bound]` lies within
/// `[-(hi - lo) * bound, (hi - lo) * bound]`.
pub proof fn lemma_sum_i64_bounds(s: Seq<i64>, lo: int, hi: int, bound: int)
    requires
        0 <= lo <= hi,
        hi <= s.len(),
        0 <= bound,
        forall|i: int| lo <= i < hi ==> -bound <= #[trigger] s[i] <= bound,
    ensures
        -((hi - lo) * bound) <= sum_i64(s, lo, hi),
        sum_i64(s, lo, hi) <= (hi - lo) * bound,
    decreases hi - lo,
{
    if hi <= lo {
    } else {
        lemma_sum_i64_bounds(s, lo, hi - 1, bound);
        assert((hi - 1 - lo) * bound + bound == (hi - lo) * bound) by (nonlinear_arith);
    }
}

/// A sum over `[lo, hi)` splits off its first element: the identity a
/// sliding window uses when the oldest sample leaves.
pub proof fn lemma_sum_u64_drop_front(s: Seq<u64>, lo: int, hi: int)
    requires
        lo < hi,
    ensures
        sum_u64(s, lo, hi) == s[lo] + sum_u64(s, lo + 1, hi),
    decreases hi - lo,
{
    if lo + 1 < hi {
        lemma_sum_u64_drop_front(s, lo, hi - 1);
        assert(sum_u64(s, lo, hi) == sum_u64(s, lo, hi - 1) + s[hi - 1]);
        assert(sum_u64(s, lo + 1, hi) == sum_u64(s, lo + 1, hi - 1) + s[hi - 1]);
    } else {
        assert(sum_u64(s, lo + 1, hi) == 0);
        assert(sum_u64(s, lo, hi) == sum_u64(s, lo, lo) + s[lo]);
    }
}

/// A sum of non-negative values is non-negative.
pub proof fn lemma_sum_i64_nonneg(s: Seq<i64>, lo: int, hi: int)
    requires
        forall|i: int| lo <= i < hi ==> #[trigger] s[i] >= 0,
    ensures
        sum_i64(s, lo, hi) >= 0,
    decreases hi - lo,
{
    if lo < hi {
        lemma_sum_i64_nonneg(s, lo, hi - 1);
    }
}

/// Truncating division stays within any symmetric bound that covers
/// `b` copies of the divisor: `|a| <= b * m` gives `|tdiv(a, b)| <= m`.
pub proof fn lemma_tdiv_bound(a: int, b: int, m: int)
    requires
        b >= 1,
        m >= 0,
        -(b * m) <= a <= b * m,
    ensures
        -m <= tdiv(a, b) <= m,
{
    if a >= 0 {
        lemma_div_pos_is_pos(a, b);
        lemma_multiply_divide_le(a, b, m);
    } else {
        lemma_div_pos_is_pos(-a, b);
        lemma_multiply_divide_le(-a, b, m);
    }
}

/// Truncating a non-negative dividend agrees with flooring division and
/// never exceeds the dividend.
pub proof fn lemma_tdiv_nonneg(a: int, b: int)
    requires
        a >= 0,
        b >= 1,
    ensures
        tdiv(a, b) == a / b,
        0 <= tdiv(a, b) <= a,
{
    lemma_div_pos_is_pos(a, b);
    lemma_div_nonincreasing(a, b);
}

/// Runtime truncating division of an `i128` by a positive divisor,
/// matching [`tdiv`].
pub fn tdiv_i128(a: i128, b: u128) -> (q: i128)
    requires
        b >= 1,
        a > i128::MIN,
    ensures
        q == tdiv(a as int, b as int),
{
    let bw: u128 = b;
    if a >= 0 {
        let ua: u128 = a as u128;
        let uq: u128 = ua / bw;
        proof {
            lemma_div_pos_is_pos(ua as int, bw as int);
            lemma_div_nonincreasing(ua as int, bw as int);
        }
        uq as i128
    } else {
        let ua: u128 = (-a) as u128;
        let uq: u128 = ua / bw;
        proof {
            lemma_div_pos_is_pos(ua as int, bw as int);
            lemma_div_nonincreasing(ua as int, bw as int);
        }
        -(uq as i128)
    }
}

/// A non-negative value no greater than `count * cap`, divided by a
/// positive `count`, stays within `[0, cap]`; used to keep window means
/// inside `u64`.
pub proof fn lemma_mean_in_range(total: int, count: int, cap: int)
    requires
        count >= 1,
        cap >= 0,
        0 <= total <= count * cap,
    ensures
        0 <= total / count <= cap,
{
    lemma_div_pos_is_pos(total, count);
    lemma_multiply_divide_le(total, count, cap);
}

/// Bound transport for sums: `hi - lo <= n` lets a `(hi - lo) * bound`
/// bound widen to `n * bound`.
pub proof fn lemma_scale_bound(k: int, n: int, bound: int)
    requires
        0 <= k <= n,
        0 <= bound,
    ensures
        k * bound <= n * bound,
{
    lemma_mul_inequality(k, n, bound);
}

} // verus!
