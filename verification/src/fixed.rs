//! Fixed-point scalar arithmetic.
//!
//! Every scalar of the library is a signed 64-bit integer read as a
//! multiple of `1 / SCALE`, so `SCALE` itself denotes one, and
//! `SCALE / 10` denotes a tenth.  Division rounds toward zero, as the
//! machine division of the intermediate 128-bit products does.

use vstd::arithmetic::div_mod::lemma_div_by_multiple;
use vstd::arithmetic::div_mod::lemma_div_is_ordered;
use vstd::arithmetic::div_mod::lemma_div_pos_is_pos;
use vstd::prelude::*;

verus! {

/// One, in fixed-point units: scalars are multiples of `1 / SCALE`.
pub const SCALE: i64 = 1_000_000_000;

/// Decay coefficient 0.9 used by the momentum and Adam rules.
pub const BETA: i64 = 900_000_000;

/// `1 - BETA`, the weight of a fresh gradient in the moving averages.
pub const ONE_MINUS_BETA: i64 = 100_000_000;

/// `(1 - BETA)^2` in fixed point: the bias-correction divisor of the
/// Adam rule.  (The rule uses this fixed exponent, not the step count.)
pub const ADAM_CORR: i64 = 10_000_000;

/// The small constant `1e-7` added to the denominator of the Adam rule.
pub const ADAM_EPS: i64 = 100;

/// Largest scalar magnitude the update rules accept, chosen so that all
/// intermediate products fit in 128 bits and all results fit in 64.
pub const MAG_LIMIT: i64 = 1_000_000_000_000_000_000;

/// Magnitude of an integer.
pub open spec fn mag(x: int) -> int {
    if x >= 0 {
        x
    } else {
        -x
    }
}

/// Division rounding toward zero, the behaviour of machine division.
pub open spec fn div_trunc(a: int, d: int) -> int
    recommends
        d > 0,
{
    if a >= 0 {
        a / d
    } else {
        -((-a) / d)
    }
}

/// The magnitude of a product is the product of the magnitudes.
pub proof fn lemma_abs_mul(a: int, b: int)
    ensures
        mag(a * b) == mag(a) * mag(b),
{
    assert(mag(a * b) == mag(a) * mag(b)) by (nonlinear_arith);
}

/// Products of bounded non-negative factors are bounded.
pub proof fn lemma_mul_le(a: int, b: int, c: int, d: int)
    requires
        0 <= a <= b,
        0 <= c <= d,
    ensures
        a * c <= b * d,
{
    assert(a * c <= b * d) by (nonlinear_arith)
        requires
            0 <= a <= b,
            0 <= c <= d,
    ;
}

/// Truncating division has the magnitude of ordinary natural division.
pub proof fn lemma_div_trunc_mag(a: int, d: int)
    requires
        d > 0,
    ensures
        mag(div_trunc(a, d)) == mag(a) / d,
{
    if a >= 0 {
        lemma_div_pos_is_pos(a, d);
    } else {
        lemma_div_pos_is_pos(-a, d);
    }
}

/// A quotient by `d` of something at most `m * d` in magnitude is at
/// most `m` in magnitude.
pub proof fn lemma_div_trunc_bound(a: int, d: int, m: int)
    requires
        d > 0,
        m >= 0,
        mag(a) <= m * d,
    ensures
        mag(div_trunc(a, d)) <= m,
{
    lemma_div_trunc_mag(a, d);
    lemma_div_is_ordered(mag(a), m * d, d);
    lemma_div_by_multiple(m, d);
}

/// Dividing an exact multiple of `d` truncates nothing.
pub proof fn lemma_div_trunc_exact(k: int, d: int)
    requires
        d > 0,
    ensures
        div_trunc(k * d, d) == k,
{
    if k >= 0 {
        assert(k * d >= 0) by (nonlinear_arith)
            requires
                d > 0,
                k >= 0,
        ;
        lemma_div_by_multiple(k, d);
    } else {
        assert(k * d < 0 && (-(k * d)) == (-k) * d) by (nonlinear_arith)
            requires
                d > 0,
                k < 0,
        ;
        lemma_div_by_multiple(-k, d);
    }
}

/// Truncating division of a signed 128-bit value by a positive divisor.
pub fn div_trunc_pos(t: i128, d: i64) -> (r: i64)
    requires
        d > 0,
        mag(t as int) <= 0x7fff_ffff_ffff_ffff * (d as int),
    ensures
        r as int == div_trunc(t as int, d as int),
{
    proof {
        lemma_div_trunc_mag(t as int, d as int);
        assert(mag(t as int) / (d as int) <= 0x7fff_ffff_ffff_ffff) by {
            lemma_div_trunc_bound(t as int, d as int, 0x7fff_ffff_ffff_ffff);
        }
    }
    if t >= 0 {
        let q: u128 = (t as u128) / (d as u128);
        q as i64
    } else {
        let q: u128 = ((-t) as u128) / (d as u128);
        -(q as i64)
    }
}

/// Clamp a scalar to the fixed-point interval `[-1, 1]`.
pub open spec fn clamp_one(g: int) -> int {
    if g < -(SCALE as int) {
        -(SCALE as int)
    } else if g > SCALE as int {
        SCALE as int
    } else {
        g
    }
}

/// Exec form of `clamp_one`.
pub fn clamp_one_exec(g: i64) -> (r: i64)
    ensures
        r as int == clamp_one(g as int),
        mag(r as int) <= SCALE as int,
{
    if g < -SCALE {
        -SCALE
    } else if g > SCALE {
        SCALE
    } else {
        g
    }
}

/// One step of the exponentially weighted moving average shared by the
/// momentum and Adam rules: `BETA * acc + (1 - BETA) * g`, in fixed
/// point.
pub open spec fn ewma(acc: int, g: int) -> int {
    div_trunc(BETA * acc + ONE_MINUS_BETA * g, SCALE as int)
}

/// Exec form of `ewma`.  The average of two scalars within a bound
/// stays within that bound, which the extra clauses record for the
/// bounds the optimizer rules rely on.
pub fn ewma_exec(acc: i64, g: i64) -> (r: i64)
    requires
        mag(acc as int) <= MAG_LIMIT as int,
        mag(g as int) <= MAG_LIMIT as int,
    ensures
        r as int == ewma(acc as int, g as int),
        mag(r as int) <= MAG_LIMIT as int,
        0 <= acc && acc <= SCALE && 0 <= g && g <= SCALE ==> 0 <= r && r <= SCALE,
        mag(acc as int) <= SCALE as int && mag(g as int) <= SCALE as int ==> mag(r as int)
            <= SCALE as int,
{
    proof {
        lemma_abs_mul(BETA as int, acc as int);
        lemma_abs_mul(ONE_MINUS_BETA as int, g as int);
        lemma_mul_le(BETA as int, BETA as int, mag(acc as int), MAG_LIMIT as int);
        lemma_mul_le(ONE_MINUS_BETA as int, ONE_MINUS_BETA as int, mag(g as int), MAG_LIMIT as int);
    }
    let t: i128 = (BETA as i128) * (acc as i128) + (ONE_MINUS_BETA as i128) * (g as i128);
    proof {
        assert(mag(t as int) <= (SCALE as int) * (MAG_LIMIT as int));
        lemma_div_trunc_bound(t as int, SCALE as int, MAG_LIMIT as int);
        if 0 <= acc && acc <= SCALE && 0 <= g && g <= SCALE {
            assert((BETA as int) * (acc as int) >= 0 && (ONE_MINUS_BETA as int) * (g as int) >= 0)
                by (nonlinear_arith)
                requires
                    acc >= 0,
                    g >= 0,
            ;
            lemma_div_pos_is_pos(t as int, SCALE as int);
        }
        if mag(acc as int) <= SCALE as int && mag(g as int) <= SCALE as int {
            lemma_mul_le(BETA as int, BETA as int, mag(acc as int), SCALE as int);
            lemma_mul_le(ONE_MINUS_BETA as int, ONE_MINUS_BETA as int, mag(g as int), SCALE as int);
            lemma_div_trunc_bound(t as int, SCALE as int, SCALE as int);
        }
    }
    div_trunc_pos(t, SCALE)
}

/// `r` is the square root of `x`, rounded down.
pub open spec fn is_sqrt_floor(x: int, r: int) -> bool {
    0 <= r && r * r <= x && x < (r + 1) * (r + 1)
}

/// The rounded-down square root, as a spec-level value.
pub open spec fn sqrt_floor(x: int) -> int {
    choose|r: int| is_sqrt_floor(x, r)
}

/// At most one value satisfies `is_sqrt_floor` for a given `x`.
pub proof fn lemma_sqrt_floor_unique(x: int, r1: int, r2: int)
    requires
        is_sqrt_floor(x, r1),
        is_sqrt_floor(x, r2),
    ensures
        r1 == r2,
{
    if r1 < r2 {
        assert((r1 + 1) * (r1 + 1) <= r2 * r2) by (nonlinear_arith)
            requires
                0 <= r1,
                r1 < r2,
        ;
    }
    if r2 < r1 {
        assert((r2 + 1) * (r2 + 1) <= r1 * r1) by (nonlinear_arith)
            requires
                0 <= r2,
                r2 < r1,
        ;
    }
}

/// Rounded-down square root, by binary search over 128-bit values.
pub fn isqrt(x: u128) -> (r: u64)
    ensures
        is_sqrt_floor(x as int, r as int),
        r as int == sqrt_floor(x as int),
{
    let mut lo: u128 = 0;
    let mut hi: u128 = 0x1_0000_0000_0000_0000;
    proof {
        assert((x as int) < 0x1_0000_0000_0000_0000 * 0x1_0000_0000_0000_0000);
    }
    while lo + 1 < hi
        invariant
            lo < hi,
            hi <= 0x1_0000_0000_0000_0000,
            (lo as int) * (lo as int) <= x as int,
            (x as int) < (hi as int) * (hi as int),
        decreases hi - lo,
    {
        let mid: u128 = lo + (hi - lo) / 2;
        proof {
            lemma_mul_le(mid as int, 0xffff_ffff_ffff_ffff, mid as int, 0xffff_ffff_ffff_ffff);
        }
        let sq: u128 = mid * mid;
        if sq <= x {
            lo = mid;
        } else {
            hi = mid;
        }
    }
    proof {
        assert(hi == lo + 1);
        assert(is_sqrt_floor(x as int, lo as int));
        let w = choose|r: int| is_sqrt_floor(x as int, r);
        lemma_sqrt_floor_unique(x as int, lo as int, w);
    }
    lo as u64
}

/// `div_trunc(a * b, d)`, computed through a 128-bit product.
pub fn mul_div(a: i64, b: i64, d: i64) -> (r: i64)
    requires
        d > 0,
        mag((a as int) * (b as int)) <= 0x7fff_ffff_ffff_ffff * (d as int),
    ensures
        r as int == div_trunc((a as int) * (b as int), d as int),
{
    let p: i128 = (a as i128) * (b as i128);
    proof {
        assert((a as i128) as int * ((b as i128) as int) == (a as int) * (b as int));
    }
    div_trunc_pos(p, d)
}

} // verus!
