//! 16.16 fixed-point scalars.
//!
//! A scalar is an `i64` holding the numerator of a fraction with fixed
//! denominator `FX_ONE` = 65536, so the stored value `x` stands for the real
//! number `x / 65536`. All rounding is truncation toward zero, matching
//! Rust's `/` on machine integers, and every operation is specified exactly
//! over the mathematical integers.

use vstd::prelude::*;

verus! {

/// The fixed-point representation of 1.
pub const FX_ONE: i64 = 65536;

/// Magnitude of an integer.
pub open spec fn mag(a: int) -> int {
    if a < 0 {
        -a
    } else {
        a
    }
}

/// Truncating division (rounds toward zero), the semantics of `/` on Rust's
/// signed machine integers. `a / b` on `int` is Euclidean, so truncation is
/// expressed by dividing the magnitudes and reapplying the sign.
pub open spec fn tdiv(a: int, b: int) -> int
    recommends
        b != 0,
{
    let x = if b < 0 {
        -a
    } else {
        a
    };
    let y = if b < 0 {
        -b
    } else {
        b
    };
    if x < 0 {
        -((-x) / y)
    } else {
        x / y
    }
}

/// Fixed-point product: `(a * b) / 65536`, truncated toward zero.
pub open spec fn fx_mul(a: int, b: int) -> int {
    tdiv(a * b, 65536)
}

/// Fixed-point quotient: `(a * 65536) / b`, truncated toward zero.
pub open spec fn fx_div(a: int, b: int) -> int
    recommends
        b != 0,
{
    tdiv(a * 65536, b)
}

/// The values an `i64` can hold, excluding the asymmetric minimum so that
/// every admitted value can also be negated.
pub open spec fn fits64(x: int) -> bool {
    -0x7fff_ffff_ffff_ffff <= x <= 0x7fff_ffff_ffff_ffff
}

/// `floor(sqrt(n))` for `n >= 0` (and 0 for negative arguments), defined by
/// the recurrence `sqrt(n) = 2 * sqrt(n / 4)`, possibly plus one.
pub open spec fn sqrt_floor(n: int) -> int
    decreases n,
{
    if n < 1 {
        0
    } else {
        let s = 2 * sqrt_floor(n / 4);
        if (s + 1) * (s + 1) <= n {
            s + 1
        } else {
            s
        }
    }
}

pub proof fn lemma_mul_bound(a: int, b: int, ba: int, bb: int)
    requires
        mag(a) <= ba,
        mag(b) <= bb,
    ensures
        mag(a * b) <= ba * bb,
{
    assert(mag(a * b) <= ba * bb) by (nonlinear_arith)
        requires
            mag(a) <= ba,
            mag(b) <= bb,
    ;
}

pub proof fn lemma_tdiv_bound(x: int, d: int, bx: int)
    requires
        d > 0,
        mag(x) <= bx,
    ensures
        mag(tdiv(x, d)) <= bx / d,
        x >= 0 ==> tdiv(x, d) >= 0,
        x <= 0 ==> tdiv(x, d) <= 0,
{
    let m = mag(x);
    vstd::arithmetic::div_mod::lemma_div_is_ordered(m, bx, d);
    vstd::arithmetic::div_mod::lemma_div_pos_is_pos(m, d);
}

pub proof fn lemma_fx_mul_bound(a: int, b: int, ba: int, bb: int)
    requires
        mag(a) <= ba,
        mag(b) <= bb,
    ensures
        mag(fx_mul(a, b)) <= (ba * bb) / 65536,
{
    lemma_mul_bound(a, b, ba, bb);
    lemma_tdiv_bound(a * b, 65536, ba * bb);
}

/// Bounds on both factors that keep a fixed-point product inside `i64`.
pub proof fn lemma_fx_mul_fits(a: int, b: int, ba: int, bb: int)
    requires
        mag(a) <= ba,
        mag(b) <= bb,
        0 <= ba * bb <= 0x7fff_ffff_ffff_ffff * 65536,
    ensures
        fits64(fx_mul(a, b)),
        mag(fx_mul(a, b)) <= (ba * bb) / 65536,
{
    lemma_fx_mul_bound(a, b, ba, bb);
    vstd::arithmetic::div_mod::lemma_div_is_ordered(ba * bb, 0x7fff_ffff_ffff_ffff * 65536int, 65536int);
    assert((0x7fff_ffff_ffff_ffff * 65536) / 65536 == 0x7fff_ffff_ffff_ffff) by (nonlinear_arith);
}

/// Truncating division never grows the magnitude, whatever the divisor's
/// sign.
pub proof fn lemma_tdiv_mag(x: int, b: int, bx: int)
    requires
        b != 0,
        mag(x) <= bx,
    ensures
        mag(tdiv(x, b)) <= bx,
{
    if b > 0 {
        lemma_tdiv_bound(x, b, bx);
        vstd::arithmetic::div_mod::lemma_div_nonincreasing(bx, b);
    } else {
        assert(tdiv(x, b) == tdiv(-x, -b));
        lemma_tdiv_bound(-x, -b, bx);
        vstd::arithmetic::div_mod::lemma_div_nonincreasing(bx, -b);
    }
}

/// A bound on the numerator that keeps a fixed-point quotient inside `i64`,
/// for any nonzero divisor.
pub proof fn lemma_fx_div_fits(a: int, b: int, ba: int)
    requires
        b != 0,
        mag(a) <= ba,
        0 <= ba,
        ba * 65536 <= 0x7fff_ffff_ffff_ffff,
    ensures
        fits64(fx_div(a, b)),
        mag(fx_div(a, b)) <= ba * 65536,
{
    lemma_tdiv_mag(a * 65536, b, ba * 65536);
}

/// Fixed-point multiplication on `i64`, exact truncating semantics.
pub fn fxmul(a: i64, b: i64) -> (r: i64)
    requires
        fits64(fx_mul(a as int, b as int)),
    ensures
        r == fx_mul(a as int, b as int),
{
    proof {
        lemma_mul_bound(a as int, b as int, 0x8000_0000_0000_0000, 0x8000_0000_0000_0000);
    }
    let p: i128 = (a as i128) * (b as i128);
    let q: i128 = p / 65536;
    assert(q == tdiv(p as int, 65536));
    q as i64
}

/// Fixed-point division on `i64`, exact truncating semantics.
pub fn fxdiv(a: i64, b: i64) -> (r: i64)
    requires
        b != 0,
        fits64(fx_div(a as int, b as int)),
    ensures
        r == fx_div(a as int, b as int),
{
    let p: i128 = (a as i128) * 65536;
    let (pn, bn): (i128, i128) = if b < 0 {
        (-p, -(b as i128))
    } else {
        (p, b as i128)
    };
    let q: i128 = pn / bn;
    assert(q == tdiv(p as int, b as int));
    q as i64
}

pub proof fn lemma_sqrt_floor(n: int)
    requires
        n >= 0,
    ensures
        sqrt_floor(n) >= 0,
        sqrt_floor(n) * sqrt_floor(n) <= n,
        n < (sqrt_floor(n) + 1) * (sqrt_floor(n) + 1),
    decreases n,
{
    if n < 1 {
        assert(sqrt_floor(n) * sqrt_floor(n) <= n && n < (sqrt_floor(n) + 1) * (sqrt_floor(n)
            + 1)) by (nonlinear_arith)
            requires
                0 <= n < 1,
                sqrt_floor(n) == 0,
        ;
    } else {
        let m = n / 4;
        lemma_sqrt_floor(m);
        let s = 2 * sqrt_floor(m);
        vstd::arithmetic::div_mod::lemma_fundamental_div_mod(n, 4);
        assert(s * s <= n) by (nonlinear_arith)
            requires
                s == 2 * sqrt_floor(m),
                sqrt_floor(m) * sqrt_floor(m) <= m,
                n >= 4 * m,
        ;
        assert(n < (s + 2) * (s + 2)) by (nonlinear_arith)
            requires
                s == 2 * sqrt_floor(m),
                m < (sqrt_floor(m) + 1) * (sqrt_floor(m) + 1),
                n <= 4 * m + 3,
        ;
        if (s + 1) * (s + 1) <= n {
            assert(sqrt_floor(n) == s + 1);
            assert(sqrt_floor(n) * sqrt_floor(n) == (s + 1) * (s + 1)
                && (sqrt_floor(n) + 1) * (sqrt_floor(n) + 1) == (s + 2) * (s + 2))
                by (nonlinear_arith)
                requires
                    sqrt_floor(n) == s + 1,
            ;
        } else {
            assert(sqrt_floor(n) == s);
            assert(sqrt_floor(n) * sqrt_floor(n) == s * s
                && (sqrt_floor(n) + 1) * (sqrt_floor(n) + 1) == (s + 1) * (s + 1))
                by (nonlinear_arith)
                requires
                    sqrt_floor(n) == s,
            ;
        }
    }
}

pub proof fn lemma_sqrt_floor_unique(n: int, r: int)
    requires
        n >= 0,
        r >= 0,
        r * r <= n,
        n < (r + 1) * (r + 1),
    ensures
        r == sqrt_floor(n),
{
    lemma_sqrt_floor(n);
    let s = sqrt_floor(n);
    assert(r == s) by (nonlinear_arith)
        requires
            r >= 0,
            s >= 0,
            r * r <= n,
            n < (r + 1) * (r + 1),
            s * s <= n,
            n < (s + 1) * (s + 1),
    ;
}

/// Integer square root by bisection: the unique `r` with
/// `r * r <= n < (r + 1) * (r + 1)`.
pub fn isqrt(n: u128) -> (r: u128)
    ensures
        r == sqrt_floor(n as int),
        r * r <= n,
{
    let mut lo: u128 = 0;
    let mut hi: u128 = 0x1_0000_0000_0000_0000;
    proof {
        assert((0x1_0000_0000_0000_0000int) * 0x1_0000_0000_0000_0000
            == 0x1_0000_0000_0000_0000_0000_0000_0000_0000int);
    }
    while hi - lo > 1
        invariant
            lo < hi <= 0x1_0000_0000_0000_0000,
            lo * lo <= n,
            (n as int) < (hi as int) * (hi as int),
        decreases hi - lo,
    {
        let mid = lo + (hi - lo) / 2;
        proof {
            assert(mid * mid < 0x1_0000_0000_0000_0000_0000_0000_0000_0000int)
                by (nonlinear_arith)
                requires
                    0 <= mid < 0x1_0000_0000_0000_0000int,
            ;
        }
        let sq = mid * mid;
        if sq <= n {
            lo = mid;
        } else {
            hi = mid;
        }
    }
    proof {
        lemma_sqrt_floor_unique(n as int, lo as int);
    }
    lo
}

} // verus!
