//! Saturating fixed-point arithmetic.
//!
//! Every length, speed and duration of the simulation is an `i64` that counts
//! ten-thousandths: `UNIT` stands for one arena unit, one unit per tick or one
//! reference tick. All operations are total. A result that would leave the
//! range of `i64` is clamped to it, and a quotient is rounded toward zero.

use vstd::prelude::*;

verus! {

/// The fixed-point representation of `1`.
pub const UNIT: i64 = 10_000;

/// `v` clamped to the range of `i64`.
pub open spec fn sat(v: int) -> int {
    if v < i64::MIN as int {
        i64::MIN as int
    } else if v > i64::MAX as int {
        i64::MAX as int
    } else {
        v
    }
}

/// The quotient of `a` by a positive `b`, rounded toward zero.
pub open spec fn trunc_div(a: int, b: int) -> int {
    if a >= 0 {
        a / b
    } else {
        -((-a) / b)
    }
}

/// Saturating sum.
pub open spec fn sat_add(a: int, b: int) -> int {
    sat(a + b)
}

/// Saturating difference.
pub open spec fn sat_sub(a: int, b: int) -> int {
    sat(a - b)
}

/// Saturating negation.
pub open spec fn sat_neg(a: int) -> int {
    sat(-a)
}

/// Saturating fixed-point product: `a * b / UNIT`, rounded toward zero.
pub open spec fn sat_mul(a: int, b: int) -> int {
    sat(trunc_div(a * b, UNIT as int))
}

/// Saturating fixed-point quotient: `a * UNIT / b`, rounded toward zero.
/// For a negative `b` the quotient of the negated operands is taken.
pub open spec fn sat_div(a: int, b: int) -> int {
    if b > 0 {
        sat(trunc_div(a * UNIT, b))
    } else {
        sat(trunc_div(-(a * UNIT), -b))
    }
}

/// The integer part of the fixed-point value `v`, rounded toward zero.
pub open spec fn whole(v: int) -> int {
    trunc_div(v, UNIT as int)
}

/// The integer part of `v`, clamped to the range of `u8`.
pub open spec fn whole_u8(v: int) -> int {
    let w = whole(v);
    if w < 0 {
        0
    } else if w > 255 {
        255
    } else {
        w
    }
}

/// The integer part of `v`, clamped to the range of `i8`.
pub open spec fn whole_i8(v: int) -> int {
    let w = whole(v);
    if w < -128 {
        -128
    } else if w > 127 {
        127
    } else {
        w
    }
}

/// `a + b` on a `u8` with a signed `b`, clamped to the range of `u8`.
pub open spec fn u8_add_signed(a: int, b: int) -> int {
    let s = a + b;
    if s < 0 {
        0
    } else if s > 255 {
        255
    } else {
        s
    }
}

/// The product of two `i64` values fits in an `i128`.
pub proof fn lemma_product_fits(a: i64, b: i64)
    ensures
        i128::MIN < a * b < i128::MAX,
{
    assert(-0x4000_0000_0000_0000_0000_0000_0000_0000 <= a * b
        <= 0x4000_0000_0000_0000_0000_0000_0000_0000) by (nonlinear_arith)
        requires
            -0x8000_0000_0000_0000 <= a <= 0x7fff_ffff_ffff_ffff,
            -0x8000_0000_0000_0000 <= b <= 0x7fff_ffff_ffff_ffff,
    ;
}

/// Clamps a wide intermediate result to `i64`.
pub fn clamp_wide(v: i128) -> (r: i64)
    ensures
        r == sat(v as int),
{
    if v < i64::MIN as i128 {
        i64::MIN
    } else if v > i64::MAX as i128 {
        i64::MAX
    } else {
        v as i64
    }
}

/// Saturating sum of two fixed-point values.
pub fn fx_add(a: i64, b: i64) -> (r: i64)
    ensures
        r == sat_add(a as int, b as int),
{
    clamp_wide(a as i128 + b as i128)
}

/// Saturating difference of two fixed-point values.
pub fn fx_sub(a: i64, b: i64) -> (r: i64)
    ensures
        r == sat_sub(a as int, b as int),
{
    clamp_wide(a as i128 - b as i128)
}

/// Saturating negation of a fixed-point value.
pub fn fx_neg(a: i64) -> (r: i64)
    ensures
        r == sat_neg(a as int),
{
    clamp_wide(-(a as i128))
}

/// Saturating product of two fixed-point values.
pub fn fx_mul(a: i64, b: i64) -> (r: i64)
    ensures
        r == sat_mul(a as int, b as int),
{
    proof {
        lemma_product_fits(a, b);
    }
    let p: i128 = (a as i128) * (b as i128);
    clamp_wide(p / (UNIT as i128))
}

/// Saturating quotient of two fixed-point values.
pub fn fx_div(a: i64, b: i64) -> (r: i64)
    requires
        b != 0,
    ensures
        r == sat_div(a as int, b as int),
{
    proof {
        lemma_product_fits(a, UNIT);
    }
    let p: i128 = (a as i128) * (UNIT as i128);
    if b > 0 {
        clamp_wide(p / (b as i128))
    } else {
        clamp_wide((-p) / (-(b as i128)))
    }
}

/// The integer part of a fixed-point value, rounded toward zero.
pub fn fx_whole(v: i64) -> (r: i64)
    ensures
        r == whole(v as int),
{
    v / UNIT
}

/// The integer part of a fixed-point value as a `u8`, clamped to its range.
pub fn fx_whole_u8(v: i64) -> (r: u8)
    ensures
        r == whole_u8(v as int),
{
    let w: i64 = v / UNIT;
    if w < 0 {
        0
    } else if w > 255 {
        255
    } else {
        w as u8
    }
}

/// The integer part of a fixed-point value as an `i8`, clamped to its range.
pub fn fx_whole_i8(v: i64) -> (r: i8)
    ensures
        r == whole_i8(v as int),
{
    let w: i64 = v / UNIT;
    if w < -128 {
        -128
    } else if w > 127 {
        127
    } else {
        w as i8
    }
}

/// Adds a signed step to a `u8`, clamping the result to the range of `u8`.
pub fn add_signed_u8(a: u8, b: i8) -> (r: u8)
    ensures
        r == u8_add_signed(a as int, b as int),
{
    let s: i16 = a as i16 + b as i16;
    if s < 0 {
        0
    } else if s > 255 {
        255
    } else {
        s as u8
    }
}

} // verus!
