//! Fixed-point arithmetic shared by the agent and flock rules.

use vstd::prelude::*;

verus! {

/// Fixed-point steps in one unit: one pixel of distance, one pixel per tick of
/// velocity, or a factor of one.
pub const SCALE: i64 = 1000;

/// `a / b` for a positive `b`, rounded toward zero as Rust's `/` rounds.
pub open spec fn div_trunc(a: int, b: int) -> int {
    if a >= 0 {
        a / b
    } else {
        -((-a) / b)
    }
}

/// `value` times the fixed-point `factor`, rounded toward zero.
pub open spec fn scaled(value: int, factor: int) -> int {
    div_trunc(value * factor, SCALE as int)
}

/// `s` is the least natural number whose square reaches `n`.
pub open spec fn is_ceil_sqrt(n: int, s: int) -> bool {
    0 <= s && n <= s * s && (s == 0 || (s - 1) * (s - 1) < n)
}

/// The least natural number whose square reaches `n`.
pub open spec fn ceil_sqrt(n: int) -> int {
    choose|s: int| is_ceil_sqrt(n, s)
}

/// A truncated quotient lies between zero and the dividend.
proof fn lemma_div_trunc_between(a: int, b: int)
    requires
        b > 0,
    ensures
        a >= 0 ==> 0 <= div_trunc(a, b) <= a,
        a < 0 ==> a <= div_trunc(a, b) <= 0,
{
    if a >= 0 {
        assert(0 <= a / b <= a) by (nonlinear_arith)
            requires
                a >= 0,
                b > 0,
        ;
    } else {
        let m = -a;
        assert(0 <= m / b <= m) by (nonlinear_arith)
            requires
                m > 0,
                b > 0,
        ;
    }
}

/// A mean of values bounded by `bound` is bounded by it too.
pub proof fn lemma_mean_bounded(total: int, count: int, bound: int)
    requires
        count > 0,
        bound >= 0,
        -(count * bound) <= total <= count * bound,
    ensures
        -bound <= div_trunc(total, count) <= bound,
{
    if total >= 0 {
        assert(total / count <= bound) by (nonlinear_arith)
            requires
                0 <= total <= count * bound,
                count > 0,
                bound >= 0,
        ;
        lemma_div_trunc_between(total, count);
    } else {
        let m = -total;
        assert(m / count <= bound) by (nonlinear_arith)
            requires
                0 <= m <= count * bound,
                count > 0,
                bound >= 0,
        ;
        lemma_div_trunc_between(total, count);
    }
}

/// Scaling by a factor in `[0, 1]` keeps the sign and does not grow the value.
pub proof fn lemma_scaled_between(value: int, factor: int)
    requires
        0 <= factor <= SCALE,
    ensures
        value >= 0 ==> 0 <= scaled(value, factor) <= value,
        value < 0 ==> value <= scaled(value, factor) <= 0,
{
    let p = value * factor;
    if value >= 0 {
        assert(0 <= p <= value * SCALE) by (nonlinear_arith)
            requires
                value >= 0,
                0 <= factor <= SCALE,
                p == value * factor,
        ;
        assert(p / (SCALE as int) <= value) by (nonlinear_arith)
            requires
                0 <= p <= value * SCALE,
        ;
        lemma_div_trunc_between(p, SCALE as int);
    } else {
        assert(value * SCALE <= p <= 0) by (nonlinear_arith)
            requires
                value < 0,
                0 <= factor <= SCALE,
                p == value * factor,
        ;
        assert((-p) / (SCALE as int) <= -value) by (nonlinear_arith)
            requires
                0 <= -p <= (-value) * SCALE,
        ;
        lemma_div_trunc_between(p, SCALE as int);
    }
}

/// There is at most one least root.
proof fn lemma_ceil_sqrt_unique(n: int, s: int, t: int)
    requires
        is_ceil_sqrt(n, s),
        is_ceil_sqrt(n, t),
    ensures
        s == t,
{
    if s < t {
        assert(s * s <= (t - 1) * (t - 1)) by (nonlinear_arith)
            requires
                0 <= s <= t - 1,
        ;
    } else if t < s {
        assert(t * t <= (s - 1) * (s - 1)) by (nonlinear_arith)
            requires
                0 <= t <= s - 1,
        ;
    }
}

/// Once a least root is found, it is the one `ceil_sqrt` names.
proof fn lemma_ceil_sqrt_is(n: int, s: int)
    requires
        is_ceil_sqrt(n, s),
    ensures
        ceil_sqrt(n) == s,
{
    let c = ceil_sqrt(n);
    assert(is_ceil_sqrt(n, c));
    lemma_ceil_sqrt_unique(n, s, c);
}

/// Every non-negative `n` has a least root.
pub proof fn lemma_least_root_exists(n: int)
    requires
        n >= 0,
    ensures
        is_ceil_sqrt(n, ceil_sqrt(n)),
{
    let s = least_root_from(n, 0);
    lemma_least_root_from(n, 0);
    assert(is_ceil_sqrt(n, s));
}

/// The least root of `n` that is at least `k`.
spec fn least_root_from(n: int, k: int) -> int
    decreases n - k,
{
    if k >= n || n <= k * k {
        k
    } else {
        least_root_from(n, k + 1)
    }
}

proof fn lemma_least_root_from(n: int, k: int)
    requires
        n >= 0,
        k >= 0,
        k == 0 || (k - 1) * (k - 1) < n,
    ensures
        is_ceil_sqrt(n, least_root_from(n, k)),
    decreases n - k,
{
    if n <= k * k {
    } else if k >= n {
        assert(n <= k * k) by (nonlinear_arith)
            requires
                k >= n,
                n >= 0,
                k >= 1 || n == 0,
        ;
    } else {
        lemma_least_root_from(n, k + 1);
    }
}

/// The largest value that `ceil_sqrt_u128` searches up to.
pub const ROOT_CEILING: u128 = 0xffff_ffff_ffff_ffff;

/// The least root of `n`, found by bisection.
pub fn ceil_sqrt_u128(n: u128) -> (r: u128)
    requires
        n <= ROOT_CEILING * ROOT_CEILING,
    ensures
        r == ceil_sqrt(n as int),
        is_ceil_sqrt(n as int, r as int),
        r <= ROOT_CEILING,
{
    if n == 0 {
        proof {
            lemma_ceil_sqrt_is(0, 0);
        }
        return 0;
    }
    let mut lo: u128 = 0;
    let mut hi: u128 = ROOT_CEILING;
    while hi - lo > 1
        invariant
            lo < hi <= ROOT_CEILING,
            lo * lo < n,
            n <= hi * hi,
        decreases hi - lo,
    {
        let mid: u128 = lo + (hi - lo) / 2;
        assert(mid * mid <= ROOT_CEILING * ROOT_CEILING) by (nonlinear_arith)
            requires
                mid <= ROOT_CEILING,
        ;
        if mid * mid >= n {
            hi = mid;
        } else {
            lo = mid;
        }
    }
    proof {
        assert(lo == hi - 1);
        lemma_ceil_sqrt_is(n as int, hi as int);
    }
    hi
}

} // verus!
