//! Fixed-point scaled amounts.
//!
//! Every price, balance, amount, ratio and percentage in this crate is an
//! `i64` holding the underlying value times [`SCALE`] (six decimal places).
//! The helpers here compute exact products and quotients of such amounts
//! through 128-bit intermediates, reporting `None` where the exact result
//! does not fit back into an `i64`.

use vstd::prelude::*;
use vstd::arithmetic::div_mod::{lemma_div_is_ordered, lemma_div_nonincreasing, lemma_div_pos_is_pos};

verus! {

/// Number of scaled units in one whole unit (six decimal places).
pub const SCALE: i64 = 1_000_000;

/// Division truncating toward zero, as Rust's `/` computes it on signed
/// integers. (Spec-level `/` is Euclidean; on a non-negative dividend and a
/// positive divisor the two agree.)
pub open spec fn tdiv(a: int, b: int) -> int
    recommends
        b != 0,
{
    if a == 0 {
        0
    } else if a > 0 && b > 0 {
        a / b
    } else if a < 0 && b < 0 {
        (a * -1) / (b * -1)
    } else if a < 0 {
        ((a * -1) / b) * -1
    } else {
        (a / (b * -1)) * -1
    }
}

/// Whether a mathematical integer fits in an `i64`.
pub open spec fn fits_i64(x: int) -> bool {
    i64::MIN <= x <= i64::MAX
}

/// Truncating toward zero shrinks the magnitude: `|a / b| <= |a|` for `b > 0`.
pub proof fn lemma_tdiv_magnitude(a: int, b: int)
    requires
        b > 0,
    ensures
        a >= 0 ==> 0 <= tdiv(a, b) <= a,
        a < 0 ==> a <= tdiv(a, b) <= 0,
{
    if a >= 0 {
        lemma_div_pos_is_pos(a, b);
        lemma_div_nonincreasing(a, b);
    } else {
        lemma_div_pos_is_pos(a * -1, b);
        lemma_div_nonincreasing(a * -1, b);
    }
}

/// Truncating toward zero shrinks the magnitude, whatever the divisor's
/// sign: `|a / b| <= |a|` for `b != 0`.
pub proof fn lemma_tdiv_abs(a: int, b: int)
    requires
        b != 0,
    ensures
        a >= 0 ==> -a <= tdiv(a, b) <= a,
        a < 0 ==> a <= tdiv(a, b) <= -a,
{
    if b > 0 {
        lemma_tdiv_magnitude(a, b);
    } else {
        if a >= 0 {
            lemma_div_pos_is_pos(a, b * -1);
            lemma_div_nonincreasing(a, b * -1);
        } else {
            lemma_div_pos_is_pos(a * -1, b * -1);
            lemma_div_nonincreasing(a * -1, b * -1);
        }
    }
}

/// `a / b` truncating toward zero on 128-bit values, for any non-zero
/// divisor and a dividend away from the lower boundary.
pub fn tdiv_i128_any(a: i128, b: i128) -> (r: i128)
    requires
        b != 0,
        a > i128::MIN,
    ensures
        r == tdiv(a as int, b as int),
{
    proof {
        lemma_tdiv_abs(a as int, b as int);
    }
    match a.checked_div(b) {
        Some(q) => q,
        None => {
            proof {
                assert(false);
            }
            0
        },
    }
}

/// `a / b` truncating toward zero on 128-bit values, for a positive divisor.
pub fn tdiv_i128(a: i128, b: i128) -> (r: i128)
    requires
        b > 0,
    ensures
        r == tdiv(a as int, b as int),
{
    proof {
        lemma_tdiv_magnitude(a as int, b as int);
    }
    match a.checked_div(b) {
        Some(q) => q,
        None => {
            proof {
                assert(false);
            }
            0
        },
    }
}

/// The exact truncated product-quotient `(a * b) / SCALE` of two scaled
/// amounts, or `None` where it falls outside the `i64` range.
pub fn mul_scaled(a: i64, b: i64) -> (r: Option<i64>)
    ensures
        fits_i64(tdiv(a * b, SCALE as int)) ==> r == Some(tdiv(a * b, SCALE as int) as i64),
        !fits_i64(tdiv(a * b, SCALE as int)) ==> r is None,
{
    proof {
        let ai = a as int;
        let bi = b as int;
        assert((-0x40000000000000000000000000000000int) <= ai * bi
            <= 0x40000000000000000000000000000000int) by (nonlinear_arith)
            requires
                (-0x8000000000000000int) <= ai <= 0x7fffffffffffffffint,
                (-0x8000000000000000int) <= bi <= 0x7fffffffffffffffint,
        ;
    }
    let p: i128 = (a as i128) * (b as i128);
    let q: i128 = tdiv_i128(p, SCALE as i128);
    if q >= i64::MIN as i128 && q <= i64::MAX as i128 {
        Some(q as i64)
    } else {
        None
    }
}

} // verus!

