//! Integer helpers for fixed-point arithmetic: the floor of a square root and
//! division that rounds toward zero.

use vstd::prelude::*;

verus! {

/// `r` is the floor of the square root of `n`.
pub open spec fn is_floor_sqrt(n: nat, r: nat) -> bool {
    r * r <= n < (r + 1) * (r + 1)
}

/// The greatest natural number whose square does not exceed `n`.
pub open spec fn floor_sqrt(n: nat) -> nat {
    choose|r: nat| is_floor_sqrt(n, r)
}

/// The quotient of `a` by a positive `d`, rounded toward zero.
pub open spec fn toward_zero(a: int, d: int) -> int {
    if a >= 0 {
        a / d
    } else {
        -((-a) / d)
    }
}

/// The product of two bounded numbers is bounded by the product of the bounds.
pub proof fn lemma_product_bound(a: int, b: int, limit_a: int, limit_b: int)
    by (nonlinear_arith)
    requires
        -limit_a <= a <= limit_a,
        -limit_b <= b <= limit_b,
    ensures
        -(limit_a * limit_b) <= a * b <= limit_a * limit_b,
{
}

/// Squaring is strictly monotone on the naturals.
pub proof fn lemma_square_strictly_monotone(a: nat, b: nat)
    by (nonlinear_arith)
    requires
        a < b,
    ensures
        a * a < b * b,
{
}

/// At most one number is the floor of the square root of `n`.
pub proof fn lemma_floor_sqrt_unique(n: nat, r: nat, s: nat)
    requires
        is_floor_sqrt(n, r),
        is_floor_sqrt(n, s),
    ensures
        r == s,
{
    if r < s {
        lemma_square_strictly_monotone(r, s);
        assert((r + 1) * (r + 1) <= s * s) by (nonlinear_arith)
            requires
                r + 1 <= s,
        ;
    } else if s < r {
        assert((s + 1) * (s + 1) <= r * r) by (nonlinear_arith)
            requires
                s + 1 <= r,
        ;
    }
}

/// Every natural number has a floor square root, and `floor_sqrt` names it.
pub proof fn lemma_floor_sqrt(n: nat)
    ensures
        is_floor_sqrt(n, floor_sqrt(n)),
    decreases n,
{
    if n == 0 {
        assert((0nat + 1) * (0nat + 1) == 1) by (nonlinear_arith);
        assert(is_floor_sqrt(0, 0));
    } else {
        let m = (n - 1) as nat;
        lemma_floor_sqrt(m);
        let r = floor_sqrt(m);
        assert((r + 2) * (r + 2) == (r + 1) * (r + 1) + 2 * r + 3) by (nonlinear_arith);
        if (r + 1) * (r + 1) <= n {
            assert(is_floor_sqrt(n, r + 1));
        } else {
            assert(is_floor_sqrt(n, r));
        }
    }
}

/// A number that passes the test is the floor square root.
pub proof fn lemma_floor_sqrt_is(n: nat, r: nat)
    requires
        is_floor_sqrt(n, r),
    ensures
        floor_sqrt(n) == r,
{
    lemma_floor_sqrt(n);
    lemma_floor_sqrt_unique(n, r, floor_sqrt(n));
}

/// The floor square root grows with its argument.
pub proof fn lemma_floor_sqrt_monotone(m: nat, n: nat)
    requires
        m <= n,
    ensures
        floor_sqrt(m) <= floor_sqrt(n),
{
    lemma_floor_sqrt(m);
    lemma_floor_sqrt(n);
    let r = floor_sqrt(m);
    let s = floor_sqrt(n);
    if s < r {
        assert((s + 1) * (s + 1) <= r * r) by (nonlinear_arith)
            requires
                s + 1 <= r,
        ;
    }
}

/// The floor square root of a perfect square is its root.
pub proof fn lemma_floor_sqrt_of_square(r: nat)
    ensures
        floor_sqrt(r * r) == r,
{
    assert(r * r < (r + 1) * (r + 1)) by (nonlinear_arith);
    lemma_floor_sqrt_is(r * r, r);
}

/// The magnitude of an integer.
pub open spec fn magnitude(c: int) -> nat {
    if c >= 0 {
        c as nat
    } else {
        (-c) as nat
    }
}

/// A square is never negative, and is positive off zero.
pub proof fn lemma_square_sign(c: int)
    by (nonlinear_arith)
    ensures
        c * c >= 0,
        c != 0 ==> c * c > 0,
        c * c == magnitude(c) * magnitude(c),
{
}

/// The square of a bounded number is bounded by the square of the bound.
pub proof fn lemma_square_bound(c: int, limit: int)
    by (nonlinear_arith)
    requires
        -limit <= c <= limit,
    ensures
        c * c <= limit * limit,
{
}

/// A number whose square is at most `limit * limit` is at most `limit` in magnitude.
pub proof fn lemma_root_bound(c: int, limit: int)
    by (nonlinear_arith)
    requires
        limit >= 0,
        c * c <= limit * limit,
    ensures
        -limit <= c <= limit,
{
}

/// Rounding toward zero keeps the sign and lowers the magnitude to a whole
/// number of divisors.
pub proof fn lemma_toward_zero(a: int, d: int)
    requires
        d > 0,
    ensures
        magnitude(toward_zero(a, d)) * d <= magnitude(a) < (magnitude(toward_zero(a, d)) + 1) * d,
        a >= 0 ==> toward_zero(a, d) >= 0,
        a <= 0 ==> toward_zero(a, d) <= 0,
{
    let m = magnitude(a) as int;
    let q = m / d;
    assert(0 <= q && q * d <= m < (q + 1) * d) by (nonlinear_arith)
        requires
            q == m / d,
            m >= 0,
            d > 0,
    ;
    assert(0int / d == 0) by (nonlinear_arith)
        requires
            d > 0,
    ;
}

/// The square of a quotient rounded toward zero, times the square of the
/// divisor, is at most the square of the dividend.
pub proof fn lemma_toward_zero_square(a: int, d: int)
    requires
        d > 0,
    ensures
        (toward_zero(a, d) * toward_zero(a, d)) * (d * d) <= a * a,
{
    lemma_toward_zero(a, d);
    let q = toward_zero(a, d);
    let mq = magnitude(q) as int;
    let ma = magnitude(a) as int;
    assert((q * q) * (d * d) <= a * a) by (nonlinear_arith)
        requires
            0 <= mq * d <= ma,
            d > 0,
            mq == q || mq == -q,
            ma == a || ma == -a,
    ;
}

/// Computes the floor of the square root by bisection.
pub fn isqrt(n: u64) -> (r: u64)
    ensures
        r == floor_sqrt(n as nat),
        r < 0x1_0000_0000,
{
    let mut lo: u64 = 0;
    let mut hi: u64 = 0x1_0000_0000;
    assert(0x1_0000_0000u64 * 0x1_0000_0000u64 > n) by (nonlinear_arith);
    while hi - lo > 1
        invariant
            lo < hi <= 0x1_0000_0000,
            lo * lo <= n < hi * hi,
        decreases hi - lo,
    {
        let mid: u64 = lo + (hi - lo) / 2;
        assert(mid * mid <= 0xffff_ffff * 0xffff_ffff) by (nonlinear_arith)
            requires
                mid <= 0xffff_ffff,
        ;
        if mid * mid <= n {
            lo = mid;
        } else {
            hi = mid;
        }
    }
    proof {
        assert(hi == lo + 1);
        lemma_floor_sqrt_is(n as nat, lo as nat);
    }
    lo
}

/// Divides by a positive number, rounding toward zero.
pub fn div_toward_zero(a: i128, d: i128) -> (q: i128)
    requires
        d > 0,
        a > i128::MIN,
    ensures
        q == toward_zero(a as int, d as int),
{
    if a >= 0 {
        a / d
    } else {
        -((-a) / d)
    }
}

} // verus!
