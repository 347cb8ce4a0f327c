//! Scalar fixed-point arithmetic: quantities are stored as integer counts of
//! one millionth of a world unit.

use vstd::prelude::*;

verus! {

/// Raw counts in one world unit.
pub const UNIT: i64 = 1_000_000;

/// Absolute value of an integer.
pub open spec fn abs(a: int) -> int {
    if a >= 0 {
        a
    } else {
        -a
    }
}

/// Quotient of `a` by a positive `d`, rounded toward zero.
pub open spec fn trunc_div(a: int, d: int) -> int {
    if a >= 0 {
        a / d
    } else {
        -((-a) / d)
    }
}

/// Rounding toward zero never moves a quotient away from zero: the quotient
/// times the divisor lies between zero and the dividend, less than one
/// divisor short of it.
pub proof fn lemma_trunc_div_bounds(a: int, d: int)
    requires
        d > 0,
    ensures
        a >= 0 ==> 0 <= trunc_div(a, d) * d <= a < trunc_div(a, d) * d + d,
        a <= 0 ==> a <= trunc_div(a, d) * d <= 0 && trunc_div(a, d) * d - d < a,
        abs(trunc_div(a, d)) <= abs(a),
        trunc_div(-a, d) == -trunc_div(a, d),
{
    let m = abs(a);
    let q = m / d;
    assert(0 <= q * d <= m < q * d + d && q <= m) by (nonlinear_arith)
        requires
            d > 0,
            m >= 0,
            q == m / d,
    ;
    if a >= 0 {
        assert(trunc_div(a, d) == q);
        if a == 0 {
            assert(trunc_div(-a, d) == q);
        } else {
            assert(trunc_div(-a, d) == -q);
        }
    } else {
        assert(trunc_div(a, d) == -q);
        assert((-q) * d == -(q * d)) by (nonlinear_arith);
        assert(trunc_div(-a, d) == q);
    }
}

/// A quotient rounded toward zero is no larger in magnitude than any bound
/// `b` for which the dividend is at most `b` divisors in magnitude.
pub proof fn lemma_trunc_div_le(a: int, d: int, b: int)
    requires
        d > 0,
        b >= 0,
        abs(a) <= b * d,
    ensures
        abs(trunc_div(a, d)) <= b,
{
    let m = abs(a);
    let q = m / d;
    assert(q <= b) by (nonlinear_arith)
        requires
            d > 0,
            m >= 0,
            m <= b * d,
            q == m / d,
    ;
}

/// Divides rounding toward zero.
pub fn div_toward_zero(a: i128, d: i128) -> (q: i128)
    requires
        d > 0,
        a > i128::MIN,
    ensures
        q == trunc_div(a as int, d as int),
{
    if a >= 0 {
        a / d
    } else {
        let m: i128 = -a;
        let q: i128 = m / d;
        -q
    }
}

/// `r` is the least natural number whose square reaches `n`.
pub open spec fn is_ceil_sqrt(n: nat, r: nat) -> bool {
    r * r >= n && (r == 0 || (r - 1) * (r - 1) < n)
}

/// The square root of `n`, rounded up.
pub closed spec fn ceil_sqrt(n: nat) -> nat {
    choose|r: nat| is_ceil_sqrt(n, r)
}

/// At most one number is the rounded-up square root of `n`, and the spec
/// function names it.
pub proof fn lemma_ceil_sqrt_unique(n: nat, r: nat)
    requires
        is_ceil_sqrt(n, r),
    ensures
        ceil_sqrt(n) == r,
{
    let c = ceil_sqrt(n);
    assert(is_ceil_sqrt(n, c));
    if c < r {
        assert(c * c <= (r - 1) * (r - 1)) by (nonlinear_arith)
            requires
                0 <= c <= r - 1,
        ;
    } else if r < c {
        assert(r * r <= (c - 1) * (c - 1)) by (nonlinear_arith)
            requires
                0 <= r <= c - 1,
        ;
    }
}

/// Every natural number has a rounded-up square root.
pub proof fn lemma_ceil_sqrt_exists(n: nat)
    ensures
        is_ceil_sqrt(n, ceil_sqrt(n)),
    decreases n,
{
    if n == 0 {
        assert(is_ceil_sqrt(0, 0));
    } else {
        lemma_ceil_sqrt_exists((n - 1) as nat);
        let p = ceil_sqrt((n - 1) as nat);
        if p * p >= n {
            assert(is_ceil_sqrt(n, p));
        } else {
            assert(p * p == n - 1);
            assert((p + 1) * (p + 1) >= n) by (nonlinear_arith)
                requires
                    p * p == n - 1,
                    p >= 0,
            ;
            assert(is_ceil_sqrt(n, p + 1));
        }
    }
}

/// Largest argument that `sqrt_up` accepts: two to the power 126.
pub const SQRT_LIMIT: u128 = 0x4000_0000_0000_0000_0000_0000_0000_0000;

/// Computes the square root of `n`, rounded up, by bisection.
pub fn sqrt_up(n: u128) -> (r: u128)
    requires
        n <= SQRT_LIMIT,
    ensures
        r == ceil_sqrt(n as nat),
        r <= 0x8000_0000_0000_0000,
{
    if n == 0 {
        proof {
            lemma_ceil_sqrt_unique(0, 0);
        }
        return 0;
    }
    let mut lo: u128 = 0;
    let mut hi: u128 = 0x8000_0000_0000_0000;
    assert(hi * hi == SQRT_LIMIT) by (nonlinear_arith)
        requires
            hi == 0x8000_0000_0000_0000,
    ;
    while hi - lo > 1
        invariant
            0 < n <= SQRT_LIMIT,
            lo < hi <= 0x8000_0000_0000_0000,
            lo * lo < n,
            n <= hi * hi,
        decreases hi - lo,
    {
        let mid: u128 = lo + (hi - lo) / 2;
        assert(mid * mid <= 0x8000_0000_0000_0000 * 0x8000_0000_0000_0000) by (nonlinear_arith)
            requires
                0 <= mid <= 0x8000_0000_0000_0000,
        ;
        if mid * mid >= n {
            hi = mid;
        } else {
            lo = mid;
        }
    }
    proof {
        assert(hi - 1 == lo);
        lemma_ceil_sqrt_unique(n as nat, hi as nat);
    }
    hi
}

} // verus!
