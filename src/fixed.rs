//! Fixed-point arithmetic shared by the classifier.
//!
//! Scores, probabilities, rates and thresholds in `[0, 1]` are held as
//! integers in parts per million: `SCALE` stands for `1.0`.
use vstd::prelude::*;

verus! {

/// The integer that stands for `1.0`.
pub const SCALE: u64 = 1_000_000;

/// Exponential moving average step `old + alpha * (x - old)`, with `alpha`
/// in parts per million, the correction rounded toward zero.
pub open spec fn ema_spec(old: int, x: int, alpha: int) -> int {
    if x >= old {
        old + (alpha * (x - old)) / (SCALE as int)
    } else {
        old - (alpha * (old - x)) / (SCALE as int)
    }
}

/// The blended value lies between the old value and the sample.
pub proof fn lemma_ema_between(old: int, x: int, alpha: int)
    requires
        0 <= alpha <= SCALE,
    ensures
        old <= x ==> old <= ema_spec(old, x, alpha) <= x,
        x <= old ==> x <= ema_spec(old, x, alpha) <= old,
        alpha == 0 ==> ema_spec(old, x, alpha) == old,
        alpha == SCALE ==> ema_spec(old, x, alpha) == x,
{
    let s = SCALE as int;
    if x >= old {
        let d = x - old;
        assert(0 <= alpha * d <= s * d) by (nonlinear_arith)
            requires 0 <= alpha <= s, d >= 0;
        assert((alpha * d) / s <= d) by (nonlinear_arith)
            requires 0 <= alpha * d <= s * d, s > 0;
        assert(0 <= (alpha * d) / s) by (nonlinear_arith)
            requires 0 <= alpha * d, s > 0;
        if alpha == s {
            assert((s * d) / s == d) by (nonlinear_arith)
                requires s > 0;
        }
    } else {
        let d = old - x;
        assert(0 <= alpha * d <= s * d) by (nonlinear_arith)
            requires 0 <= alpha <= s, d >= 0;
        assert((alpha * d) / s <= d) by (nonlinear_arith)
            requires 0 <= alpha * d <= s * d, s > 0;
        assert(0 <= (alpha * d) / s) by (nonlinear_arith)
            requires 0 <= alpha * d, s > 0;
        if alpha == s {
            assert((s * d) / s == d) by (nonlinear_arith)
                requires s > 0;
        }
    }
}

/// One exponential-moving-average step on a value in `[-limit, limit]`.
pub fn ema(old: i64, x: i64, alpha: u64) -> (r: i64)
    requires
        alpha <= SCALE,
    ensures
        r == ema_spec(old as int, x as int, alpha as int),
        old <= x ==> old <= r <= x,
        x <= old ==> x <= r <= old,
{
    proof {
        lemma_ema_between(old as int, x as int, alpha as int);
    }
    if x >= old {
        let d: i128 = x as i128 - old as i128;
        let step: i128 = (alpha as i128 * d) / (SCALE as i128);
        (old as i128 + step) as i64
    } else {
        let d: i128 = old as i128 - x as i128;
        let step: i128 = (alpha as i128 * d) / (SCALE as i128);
        (old as i128 - step) as i64
    }
}

/// Largest input accepted by `isqrt`: `2^106 - 1`.
pub const ISQRT_INPUT_LIMIT: u128 = 81_129_638_414_606_681_695_789_005_144_063;

/// `r` is the integer square root of `n`.
pub open spec fn is_isqrt(r: int, n: int) -> bool {
    0 <= r && r * r <= n < (r + 1) * (r + 1)
}

/// The integer square root (floor) of a natural number.
pub open spec fn isqrt_spec(n: nat) -> nat {
    choose|r: nat| is_isqrt(r as int, n as int)
}

proof fn lemma_isqrt_unique(r1: int, r2: int, n: int)
    requires
        is_isqrt(r1, n),
        is_isqrt(r2, n),
    ensures
        r1 == r2,
{
    if r1 < r2 {
        assert((r1 + 1) * (r1 + 1) <= r2 * r2) by (nonlinear_arith)
            requires
                0 <= r1 + 1 <= r2,
        ;
    } else if r2 < r1 {
        assert((r2 + 1) * (r2 + 1) <= r1 * r1) by (nonlinear_arith)
            requires
                0 <= r2 + 1 <= r1,
        ;
    }
}

/// Any integer square root of `n` is the one `isqrt_spec` picks.
pub proof fn lemma_isqrt_spec(r: int, n: int)
    requires
        is_isqrt(r, n),
    ensures
        isqrt_spec(n as nat) == r,
{
    assert(is_isqrt((r as nat) as int, (n as nat) as int));
    let c = isqrt_spec(n as nat);
    assert(is_isqrt(c as int, n));
    lemma_isqrt_unique(c as int, r, n);
}

/// Integer square root (floor), by bisection.
pub fn isqrt(n: u128) -> (r: u64)
    requires
        n <= ISQRT_INPUT_LIMIT,
    ensures
        is_isqrt(r as int, n as int),
        r == isqrt_spec(n as nat),
{
    let mut lo: u128 = 0;
    let mut hi: u128 = 9_007_199_254_740_992;
    assert(hi * hi == ISQRT_INPUT_LIMIT + 1) by (nonlinear_arith)
        requires
            hi == 9_007_199_254_740_992u128,
    ;
    while hi - lo > 1
        invariant
            lo < hi <= 9_007_199_254_740_992,
            lo * lo <= n,
            n < hi * hi,
        decreases hi - lo,
    {
        let mid: u128 = lo + (hi - lo) / 2;
        assert(mid * mid < 9_007_199_254_740_992 * 9_007_199_254_740_992) by (nonlinear_arith)
            requires
                0 <= mid < 9_007_199_254_740_992,
        ;
        if mid * mid <= n {
            lo = mid;
        } else {
            hi = mid;
        }
    }
    proof {
        assert(hi == lo + 1);
        lemma_isqrt_spec(lo as int, n as int);
    }
    lo as u64
}

} // verus!
