//! Fixed-point scalar arithmetic.
//!
//! A scalar is an `i64` raw value counting units of `1 / SCALE`, so the raw
//! value `r` stands for the number `r / SCALE`. Addition and subtraction are
//! exact until they leave the `i64` range, where they saturate; multiplication
//! rescales its exact product by `SCALE`, rounding toward zero, and saturates
//! in the same way.

use vstd::prelude::*;
use vstd::arithmetic::div_mod::{
    lemma_div_is_ordered, lemma_div_multiples_vanish, lemma_div_nonincreasing,
    lemma_div_pos_is_pos,
};

verus! {

/// Number of raw units in one whole scalar unit.
pub const SCALE: i64 = 1_000_000;

/// Division rounding toward zero (the fixed-width machine division),
/// defined for positive divisors.
pub open spec fn tdiv(a: int, b: int) -> int {
    if a >= 0 {
        a / b
    } else {
        -((-a) / b)
    }
}

/// Clamp a mathematical integer into the `i64` range.
pub open spec fn sat64(x: int) -> int {
    if x > i64::MAX {
        i64::MAX as int
    } else if x < i64::MIN {
        i64::MIN as int
    } else {
        x
    }
}

/// Magnitude of a mathematical integer.
pub open spec fn abs_i(x: int) -> int {
    if x >= 0 {
        x
    } else {
        -x
    }
}

/// Saturating fixed-point addition.
pub open spec fn fx_add_s(a: int, b: int) -> int {
    sat64(a + b)
}

/// Saturating fixed-point subtraction.
pub open spec fn fx_sub_s(a: int, b: int) -> int {
    sat64(a - b)
}

/// Saturating fixed-point multiplication: the exact product rescaled by
/// `SCALE`, rounded toward zero.
pub open spec fn fx_mul_s(a: int, b: int) -> int {
    sat64(tdiv(a * b, SCALE as int))
}

pub fn fx_add(a: i64, b: i64) -> (r: i64)
    ensures
        r as int == fx_add_s(a as int, b as int),
{
    match a.checked_add(b) {
        Some(s) => s,
        None => {
            if b > 0 {
                i64::MAX
            } else {
                i64::MIN
            }
        },
    }
}

pub fn fx_sub(a: i64, b: i64) -> (r: i64)
    ensures
        r as int == fx_sub_s(a as int, b as int),
{
    match a.checked_sub(b) {
        Some(s) => s,
        None => {
            if b < 0 {
                i64::MAX
            } else {
                i64::MIN
            }
        },
    }
}

pub fn fx_mul(a: i64, b: i64) -> (r: i64)
    ensures
        r as int == fx_mul_s(a as int, b as int),
{
    proof {
        assert(i128::MIN < (a as int) * (b as int) < i128::MAX) by (nonlinear_arith);
    }
    let p: i128 = (a as i128) * (b as i128);
    proof {
        lemma_tdiv_shrinks(p as int, SCALE as int);
    }
    let q: i128 = match p.checked_div(SCALE as i128) {
        Some(q) => q,
        None => unreached(),
    };
    proof {
        assert(q as int == tdiv(p as int, SCALE as int));
    }
    if q > i64::MAX as i128 {
        i64::MAX
    } else if q < i64::MIN as i128 {
        i64::MIN
    } else {
        q as i64
    }
}

/// Rounding a quotient toward zero never increases its magnitude, and for a
/// positive dividend the machine quotient agrees with the Euclidean one.
proof fn lemma_tdiv_shrinks(p: int, d: int)
    requires
        d >= 1,
    ensures
        abs_i(tdiv(p, d)) <= abs_i(p),
        p >= 0 ==> 0 <= p / d <= p,
        p < 0 ==> 0 <= (-p) / d <= -p,
        p < 0 ==> 0 <= (p * -1) / d <= -p,
{
    if p >= 0 {
        lemma_div_pos_is_pos(p, d);
        lemma_div_nonincreasing(p, d);
    } else {
        lemma_div_pos_is_pos(-p, d);
        lemma_div_nonincreasing(-p, d);
        assert(p * -1 == -p);
    }
}

/// Rescaling a product by `SCALE` keeps its magnitude under `c` whenever the
/// product's magnitude is at most `c * SCALE`.
pub proof fn lemma_fx_mul_bounded(a: int, b: int, c: int)
    requires
        0 <= c <= i64::MAX,
        abs_i(a * b) <= c * SCALE,
    ensures
        abs_i(fx_mul_s(a, b)) <= c,
{
    let s = SCALE as int;
    let p = a * b;
    lemma_div_multiples_vanish(c, s);
    if p >= 0 {
        lemma_div_is_ordered(p, c * s, s);
        lemma_div_pos_is_pos(p, s);
    } else {
        lemma_div_is_ordered(-p, c * s, s);
        lemma_div_pos_is_pos(-p, s);
    }
}

} // verus!
