//! Fixed-point scalars.
//!
//! A scalar is an `i64` that counts billionths: the raw value `ONE` stands for
//! the number one. Products and quotients are formed in `i128` and rounded
//! toward zero, so that a computation and its mirror image round alike.

use vstd::arithmetic::div_mod::{lemma_div_pos_is_pos, lemma_fundamental_div_mod, lemma_mod_bound};
use vstd::prelude::*;

verus! {

/// Raw value of the number one.
pub const ONE: i64 = 1_000_000_000;

/// The square of `ONE`: the raw value of one in a product of two scalars.
pub const ONE_SQ: i128 = 1_000_000_000_000_000_000;

/// Largest magnitude of a stored coordinate: a thousand units.
pub const LIMIT: i64 = 1_000_000_000_000;

/// Largest magnitude of a value that enters a wide product: two to the power 62.
pub const WIDE: i64 = 0x4000_0000_0000_0000;

/// Absolute value.
pub open spec fn magnitude(a: int) -> int {
    if a >= 0 {
        a
    } else {
        -a
    }
}

/// Quotient of `a` by a positive `d`, rounded toward zero.
pub open spec fn trunc_div(a: int, d: int) -> int {
    if a >= 0 {
        a / d
    } else {
        -((-a) / d)
    }
}

/// The value of the box `[-LIMIT, LIMIT]` nearest to `a`.
pub open spec fn confine(a: int) -> int {
    if a > LIMIT {
        LIMIT as int
    } else if a < -LIMIT {
        -LIMIT as int
    } else {
        a
    }
}

/// `r` is the integer square root of `n`, rounded down.
pub open spec fn is_floor_sqrt(r: int, n: int) -> bool {
    0 <= r && r * r <= n && n < (r + 1) * (r + 1)
}

/// The integer square root of a natural number, rounded down.
pub open spec fn floor_sqrt(n: int) -> int {
    choose|r: int| is_floor_sqrt(r, n)
}

/// The two constants for one agree.
pub proof fn lemma_one_squared()
    ensures
        ONE * ONE == ONE_SQ,
{
    assert(1_000_000_000int * 1_000_000_000int == 1_000_000_000_000_000_000int);
}

/// What rounding toward zero keeps: the sign, and the magnitude up to one divisor.
pub proof fn lemma_trunc_div(a: int, d: int)
    requires
        d > 0,
    ensures
        a >= 0 ==> trunc_div(a, d) >= 0,
        a <= 0 ==> trunc_div(a, d) <= 0,
        magnitude(trunc_div(a, d)) * d <= magnitude(a),
        magnitude(a) < (magnitude(trunc_div(a, d)) + 1) * d,
        trunc_div(-a, d) == -trunc_div(a, d),
{
    let m = magnitude(a);
    let q = m / d;
    lemma_fundamental_div_mod(m, d);
    lemma_mod_bound(m, d);
    lemma_div_pos_is_pos(m, d);
    assert(magnitude(trunc_div(a, d)) == q);
    assert((q + 1) * d == q * d + d && d * q == q * d) by (nonlinear_arith);
    if a == 0 {
        assert(0int / d == 0) by (nonlinear_arith)
            requires
                d > 0,
        ;
    }
}

/// A quotient is no larger than `m` when the dividend is no larger than `m * d`.
pub proof fn lemma_trunc_div_at_most(a: int, d: int, m: int)
    requires
        d > 0,
        m >= 0,
        magnitude(a) <= m * d,
    ensures
        magnitude(trunc_div(a, d)) <= m,
{
    lemma_trunc_div(a, d);
    let q = magnitude(trunc_div(a, d));
    assert(q <= m) by (nonlinear_arith)
        requires
            d > 0,
            q * d <= m * d,
    ;
}

/// A product is bounded by the product of the bounds of its factors.
pub proof fn lemma_product_bound(a: int, b: int, ba: int, bb: int)
    requires
        magnitude(a) <= ba,
        magnitude(b) <= bb,
    ensures
        magnitude(a * b) <= ba * bb,
{
    let ma = magnitude(a);
    let mb = magnitude(b);
    assert(magnitude(a * b) == ma * mb) by (nonlinear_arith)
        requires
            ma == magnitude(a),
            mb == magnitude(b),
    ;
    assert(ma * mb <= ba * bb) by (nonlinear_arith)
        requires
            0 <= ma <= ba,
            0 <= mb <= bb,
    ;
}

/// Every natural number has a rounded-down square root.
pub proof fn lemma_floor_sqrt_exists(n: int)
    requires
        0 <= n,
    ensures
        is_floor_sqrt(floor_sqrt(n), n),
    decreases n,
{
    if n == 0 {
        assert(is_floor_sqrt(0, 0));
    } else {
        lemma_floor_sqrt_exists(n - 1);
        let r = floor_sqrt(n - 1);
        if n < (r + 1) * (r + 1) {
            assert(is_floor_sqrt(r, n));
        } else {
            assert(is_floor_sqrt(r + 1, n)) by (nonlinear_arith)
                requires
                    0 <= r,
                    r * r <= n - 1,
                    n - 1 < (r + 1) * (r + 1),
                    n >= (r + 1) * (r + 1),
            ;
        }
    }
}

/// A number has one rounded-down square root.
pub proof fn lemma_floor_sqrt_unique(r: int, n: int)
    requires
        is_floor_sqrt(r, n),
    ensures
        floor_sqrt(n) == r,
{
    let s = floor_sqrt(n);
    assert(is_floor_sqrt(s, n));
    assert(s == r) by (nonlinear_arith)
        requires
            0 <= r,
            0 <= s,
            r * r <= n,
            n < (r + 1) * (r + 1),
            s * s <= n,
            n < (s + 1) * (s + 1),
    ;
}

/// The rounded-down square root of a number below `(b + 1)^2` is at most `b`.
pub proof fn lemma_floor_sqrt_at_most(r: int, n: int, b: int)
    requires
        is_floor_sqrt(r, n),
        0 <= b,
        n < (b + 1) * (b + 1),
    ensures
        r <= b,
{
    assert(r <= b) by (nonlinear_arith)
        requires
            0 <= r,
            0 <= b,
            r * r <= n,
            n < (b + 1) * (b + 1),
    ;
}

/// A number whose square is at most `s` has magnitude at most the rounded-down
/// square root of `s`; so has every component of a vector of squared length `s`.
pub proof fn lemma_root_bounds_component(c: int, s: int, r: int)
    by (nonlinear_arith)
    requires
        0 <= r,
        c * c <= s,
        s < (r + 1) * (r + 1),
    ensures
        -r <= c <= r,
{
}

/// The rounded-down square root of a number from `k * k` on is at least `k`.
pub proof fn lemma_floor_sqrt_at_least(r: int, n: int, k: int)
    requires
        is_floor_sqrt(r, n),
        0 <= k,
        k * k <= n,
    ensures
        k <= r,
{
    assert(k <= r) by (nonlinear_arith)
        requires
            0 <= r,
            0 <= k,
            k * k <= n,
            n < (r + 1) * (r + 1),
    ;
}

/// Exact product of two raw values.
pub fn product(a: i64, b: i64) -> (p: i128)
    ensures
        p == a * b,
{
    proof {
        lemma_product_bound(a as int, b as int, 0x8000_0000_0000_0000, 0x8000_0000_0000_0000);
    }
    (a as i128) * (b as i128)
}

/// Divides by a positive number, rounding toward zero.
pub fn quotient(a: i128, d: i128) -> (q: i128)
    requires
        d > 0,
    ensures
        q == trunc_div(a as int, d as int),
{
    a / d
}

/// Brings a wide value back into the box of stored coordinates.
pub fn confined(a: i128) -> (r: i64)
    ensures
        r == confine(a as int),
        -LIMIT <= r <= LIMIT,
{
    if a > LIMIT as i128 {
        LIMIT
    } else if a < -(LIMIT as i128) {
        -LIMIT
    } else {
        a as i64
    }
}

/// Integer square root, rounded down, by bisection.
pub fn isqrt(n: u128) -> (r: u64)
    ensures
        is_floor_sqrt(r as int, n as int),
        r == floor_sqrt(n as int),
{
    let mut lo: u128 = 0;
    let mut hi: u128 = 0x1_0000_0000_0000_0000;
    assert(hi * hi > n) by (nonlinear_arith)
        requires
            hi == 0x1_0000_0000_0000_0000,
            n <= 0xffff_ffff_ffff_ffff_ffff_ffff_ffff_ffff,
    ;
    while hi - lo > 1
        invariant
            lo < hi <= 0x1_0000_0000_0000_0000,
            lo * lo <= n,
            n < hi * hi,
        decreases hi - lo,
    {
        let mid: u128 = lo + (hi - lo) / 2;
        assert(mid * mid <= 0xffff_ffff_ffff_ffff * 0xffff_ffff_ffff_ffff) by (nonlinear_arith)
            requires
                0 <= mid <= 0xffff_ffff_ffff_ffff,
        ;
        if mid * mid <= n {
            lo = mid;
        } else {
            hi = mid;
        }
    }
    proof {
        lemma_floor_sqrt_unique(lo as int, n as int);
    }
    lo as u64
}

} // verus!
