//! Integer rounding and saturation helpers shared by the rendering stages.
//!
//! Fractional parameters (logo scale, padding, band and margin ratios, font
//! sizes) are carried as integers: ratios in thousandths or hundredths, and
//! sub-pixel lengths in thousandths of a pixel. `round_frac` is the exact
//! round-half-up of a non-negative rational, so every stage computes the
//! real-valued formulas of the design without floating point.

use vstd::prelude::*;

verus! {

/// `num / den` rounded to the nearest integer, halves rounded up.
/// Meaningful for `num >= 0` and `den >= 1`.
pub open spec fn round_frac(num: int, den: int) -> int {
    (2 * num + den) / (2 * den)
}

/// The larger of two integers.
pub open spec fn spec_max(a: int, b: int) -> int {
    if a >= b {
        a
    } else {
        b
    }
}

/// The smaller of two integers.
pub open spec fn spec_min(a: int, b: int) -> int {
    if a <= b {
        a
    } else {
        b
    }
}

/// Rounding never exceeds the numerator (for `den >= 1`), and stays under
/// `cap` whenever `num <= den * cap`.
pub proof fn lemma_round_frac_le(num: int, den: int, cap: int)
    requires
        0 <= num,
        1 <= den,
        num <= den * cap,
    ensures
        0 <= round_frac(num, den) <= cap,
{
    assert(0 <= (2 * num + den) / (2 * den) <= cap) by (nonlinear_arith)
        requires
            0 <= num,
            1 <= den,
            num <= den * cap,
    ;
}

/// `num / den` rounded to the nearest integer, halves rounded up.
pub fn round_ratio(num: u64, den: u64) -> (r: u64)
    requires
        den >= 1,
    ensures
        r == round_frac(num as int, den as int),
        r <= num,
{
    proof {
        assert((2 * num + den) / (2 * den) <= num) by (nonlinear_arith)
            requires
                den >= 1,
        ;
        assert((2 * num + den) / (2 * den) >= 0) by (nonlinear_arith)
            requires
                den >= 1,
        ;
    }
    let wide: u128 = (2 * (num as u128) + den as u128) / (2 * (den as u128));
    wide as u64
}

/// Addition on `i64` clamped to the representable range.
pub open spec fn sat_add_spec(a: int, b: int) -> int {
    if a + b > i64::MAX {
        i64::MAX as int
    } else if a + b < i64::MIN {
        i64::MIN as int
    } else {
        a + b
    }
}

/// `a + b`, clamped to the `i64` range.
pub fn sat_add_i64(a: i64, b: i64) -> (r: i64)
    ensures
        r == sat_add_spec(a as int, b as int),
{
    if b >= 0 {
        if a > i64::MAX - b {
            i64::MAX
        } else {
            a + b
        }
    } else {
        if a < i64::MIN - b {
            i64::MIN
        } else {
            a + b
        }
    }
}

/// The larger of two `u32` values.
pub fn max_u32(a: u32, b: u32) -> (r: u32)
    ensures
        r == spec_max(a as int, b as int),
{
    if a >= b {
        a
    } else {
        b
    }
}

/// The smaller of two `u32` values.
pub fn min_u32(a: u32, b: u32) -> (r: u32)
    ensures
        r == spec_min(a as int, b as int),
{
    if a <= b {
        a
    } else {
        b
    }
}

} // verus!
