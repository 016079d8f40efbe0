//! Arithmetic that stops at the limits of its type.

use vstd::prelude::*;

verus! {

/// The nearest `i32`.
pub open spec fn clamped(value: int) -> int {
    if value > i32::MAX {
        i32::MAX as int
    } else if value < i32::MIN {
        i32::MIN as int
    } else {
        value
    }
}

pub open spec fn min_int(a: int, b: int) -> int {
    if a <= b {
        a
    } else {
        b
    }
}

pub open spec fn max_int(a: int, b: int) -> int {
    if a >= b {
        a
    } else {
        b
    }
}

/// The nearest `i32`.
pub fn clamp_i64(value: i64) -> (result: i32)
    ensures
        result == clamped(value as int),
{
    if value > i32::MAX as i64 {
        i32::MAX
    } else if value < i32::MIN as i64 {
        i32::MIN
    } else {
        value as i32
    }
}

pub fn saturating_add(a: i32, b: i32) -> (sum: i32)
    ensures
        sum == clamped(a + b),
{
    clamp_i64(a as i64 + b as i64)
}

pub fn saturating_sub(a: i32, b: i32) -> (difference: i32)
    ensures
        difference == clamped(a - b),
{
    clamp_i64(a as i64 - b as i64)
}

pub fn saturating_mul(a: i32, b: i32) -> (product: i32)
    ensures
        product == clamped(a * b),
{
    assert(-0x4000_0000_0000_0000 <= a * b <= 0x4000_0000_0000_0000) by (nonlinear_arith)
        requires
            -0x8000_0000 <= a <= 0x7fff_ffff,
            -0x8000_0000 <= b <= 0x7fff_ffff,
    ;
    clamp_i64(a as i64 * b as i64)
}

pub fn min_i32(a: i32, b: i32) -> (least: i32)
    ensures
        least == min_int(a as int, b as int),
{
    if a <= b {
        a
    } else {
        b
    }
}

pub fn max_i32(a: i32, b: i32) -> (greatest: i32)
    ensures
        greatest == max_int(a as int, b as int),
{
    if a >= b {
        a
    } else {
        b
    }
}

pub fn min_usize(a: usize, b: usize) -> (least: usize)
    ensures
        least == min_int(a as int, b as int),
{
    if a <= b {
        a
    } else {
        b
    }
}

pub fn max_usize(a: usize, b: usize) -> (greatest: usize)
    ensures
        greatest == max_int(a as int, b as int),
{
    if a >= b {
        a
    } else {
        b
    }
}

/// The nearest `i32`.
pub fn i32_from_usize(value: usize) -> (result: i32)
    ensures
        result == clamped(value as int),
{
    if value > i32::MAX as usize {
        i32::MAX
    } else {
        value as i32
    }
}

/// The product of two counts, stopping at the largest `usize`.
pub fn saturating_mul_usize(a: usize, b: usize) -> (product: usize)
    ensures
        product == (if a * b > usize::MAX {
            usize::MAX as int
        } else {
            a * b
        }),
{
    match a.checked_mul(b) {
        Some(product) => product,
        None => usize::MAX,
    }
}

/// A number is clamped to the `i32` that is nearest to it: to itself where it is
/// one, and to no `i32` that is farther away than another.
pub proof fn law_clamped_is_nearest(value: int, other: i32)
    ensures
        i32::MIN <= clamped(value) <= i32::MAX,
        i32::MIN <= value <= i32::MAX ==> clamped(value) == value,
        value > i32::MAX ==> other <= clamped(value) < value,
        value < i32::MIN ==> value < clamped(value) <= other,
{
}

/// The lesser and the greater of two numbers are one of them each, in order.
pub proof fn law_least_and_greatest(a: int, b: int)
    ensures
        min_int(a, b) <= a <= max_int(a, b),
        min_int(a, b) <= b <= max_int(a, b),
        min_int(a, b) + max_int(a, b) == a + b,
        min_int(a, b) == a || min_int(a, b) == b,
{
}

} // verus!
