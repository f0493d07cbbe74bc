//! Integer helpers for font-unit arithmetic.
//!
//! Layout positions are `i32` font units. Every sum that could leave the `i32`
//! range is computed in `i64` and saturated back, so the layout code never
//! overflows.
use vstd::prelude::*;

verus! {

/// The value `x` clamped to the range of `i32`.
pub open spec fn clamp_i32(x: int) -> int {
    if x < i32::MIN {
        i32::MIN as int
    } else if x > i32::MAX {
        i32::MAX as int
    } else {
        x
    }
}

/// Maximum of two integers.
pub open spec fn max_int(a: int, b: int) -> int {
    if a >= b {
        a
    } else {
        b
    }
}

/// Minimum of two integers.
pub open spec fn min_int(a: int, b: int) -> int {
    if a <= b {
        a
    } else {
        b
    }
}

/// Integer division rounding toward zero, as Rust's `/` does on signed integers.
pub open spec fn div_trunc(a: int, b: int) -> int {
    if a >= 0 && b > 0 {
        a / b
    } else if a < 0 && b > 0 {
        -((-a) / b)
    } else if a >= 0 && b < 0 {
        -(a / (-b))
    } else {
        (-a) / (-b)
    }
}

/// Saturate an `i64` to the `i32` range.
pub fn saturate(x: i64) -> (r: i32)
    ensures
        r == clamp_i32(x as int),
{
    if x < i32::MIN as i64 {
        i32::MIN
    } else if x > i32::MAX as i64 {
        i32::MAX
    } else {
        x as i32
    }
}

/// `a + b`, saturated to the `i32` range.
pub fn sat_add(a: i32, b: i32) -> (r: i32)
    ensures
        r == clamp_i32(a + b),
{
    saturate(a as i64 + b as i64)
}

/// `a - b`, saturated to the `i32` range.
pub fn sat_sub(a: i32, b: i32) -> (r: i32)
    ensures
        r == clamp_i32(a - b),
{
    saturate(a as i64 - b as i64)
}

/// `-a`, saturated to the `i32` range.
pub fn sat_neg(a: i32) -> (r: i32)
    ensures
        r == clamp_i32(-a),
{
    saturate(-(a as i64))
}

/// `a * b`, saturated to the `i32` range.
pub fn sat_mul(a: i32, b: i32) -> (r: i32)
    ensures
        r == clamp_i32(a * b),
{
    assert(-0x4000_0000_0000_0000 <= (a as int) * (b as int) <= 0x4000_0000_0000_0000) by (nonlinear_arith)
        requires
            i32::MIN <= a <= i32::MAX,
            i32::MIN <= b <= i32::MAX,
    ;
    saturate(a as i64 * b as i64)
}

/// `a / b` rounding toward zero; the one overflowing case (`i32::MIN / -1`) saturates.
pub fn sat_div(a: i32, b: i32) -> (r: i32)
    requires
        b != 0,
    ensures
        r == clamp_i32(div_trunc(a as int, b as int)),
{
    let a64: i64 = a as i64;
    let b64: i64 = b as i64;
    let na: i64 = if a64 >= 0 { a64 } else { -a64 };
    let nb: i64 = if b64 >= 0 { b64 } else { -b64 };
    let m: i64 = na / nb;
    let q: i64 = if (a64 >= 0) == (b64 > 0) { m } else { -m };
    assert(q == div_trunc(a as int, b as int));
    saturate(q)
}

/// The larger of two values.
pub fn max_i32(a: i32, b: i32) -> (r: i32)
    ensures
        r == max_int(a as int, b as int),
{
    if a >= b {
        a
    } else {
        b
    }
}

/// The smaller of two values.
pub fn min_i32(a: i32, b: i32) -> (r: i32)
    ensures
        r == min_int(a as int, b as int),
{
    if a <= b {
        a
    } else {
        b
    }
}

/// `a / b` rounding toward zero, on `i64`.
pub fn div_trunc_i64(a: i64, b: i64) -> (r: i64)
    requires
        b != 0,
        a > i64::MIN,
        b > i64::MIN,
    ensures
        r == div_trunc(a as int, b as int),
{
    let na: i64 = if a >= 0 { a } else { -a };
    let nb: i64 = if b >= 0 { b } else { -b };
    let m: i64 = na / nb;
    if (a >= 0) == (b > 0) {
        m
    } else {
        -m
    }
}

/// The exact product of two `i32`s.
pub fn wide_mul(a: i32, b: i32) -> (r: i64)
    ensures
        r == a * b,
        -0x4000_0000_0000_0000 <= r <= 0x4000_0000_0000_0000,
{
    assert(-0x4000_0000_0000_0000 <= (a as int) * (b as int) <= 0x4000_0000_0000_0000) by (nonlinear_arith)
        requires
            i32::MIN <= a <= i32::MAX,
            i32::MIN <= b <= i32::MAX,
    ;
    a as i64 * b as i64
}

/// The exact product of a `u32` and an `i32`.
pub fn wide_mul_unsigned(a: u32, b: i32) -> (r: i64)
    ensures
        r == a * b,
        i64::MIN < r,
        a != 0 && b != 0 ==> r != 0,
{
    assert(-0x7fff_ffff_8000_0000 <= (a as int) * (b as int) <= 0x7fff_ffff_8000_0000) by (nonlinear_arith)
        requires
            0 <= a <= u32::MAX,
            i32::MIN <= b <= i32::MAX,
    ;
    assert(a != 0 && b != 0 ==> (a as int) * (b as int) != 0) by (nonlinear_arith);
    a as i64 * b as i64
}

} // verus!
