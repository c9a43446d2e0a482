//! Integer helpers with exact results.

use vstd::prelude::*;

verus! {

/// The smaller of two numbers.
pub open spec fn least(a: int, b: int) -> int {
    if a <= b {
        a
    } else {
        b
    }
}

/// The larger of two numbers.
pub open spec fn most(a: int, b: int) -> int {
    if a >= b {
        a
    } else {
        b
    }
}

/// The number in a range that is nearest to `n`.
pub open spec fn clamped(n: int, low: int, high: int) -> int {
    if n < low {
        low
    } else if n > high {
        high
    } else {
        n
    }
}

/// The smaller of two numbers.
pub fn min_usize(a: usize, b: usize) -> (result: usize)
    ensures
        result == least(a as int, b as int),
{
    if a <= b {
        a
    } else {
        b
    }
}

/// The larger of two numbers.
pub fn max_usize(a: usize, b: usize) -> (result: usize)
    ensures
        result == most(a as int, b as int),
{
    if a >= b {
        a
    } else {
        b
    }
}

/// The smaller of two numbers.
pub fn min_u16(a: u16, b: u16) -> (result: u16)
    ensures
        result == least(a as int, b as int),
{
    if a <= b {
        a
    } else {
        b
    }
}

/// The larger of two numbers.
pub fn max_u16(a: u16, b: u16) -> (result: u16)
    ensures
        result == most(a as int, b as int),
{
    if a >= b {
        a
    } else {
        b
    }
}

/// The distance of a number from zero.
pub fn magnitude(n: isize) -> (result: usize)
    ensures
        result == if n < 0 {
            -n
        } else {
            n as int
        },
{
    if n < 0 {
        (-(n + 1)) as usize + 1
    } else {
        n as usize
    }
}

/// The product of two numbers, or the largest number where it does not fit.
pub fn saturating_product(a: usize, b: usize) -> (result: usize)
    ensures
        result == least(a * b, usize::MAX as int),
{
    match a.checked_mul(b) {
        Some(product) => product,
        None => usize::MAX,
    }
}

/// The position that a step leads to: not before the first of `len` positions
/// when stepping back, not behind the last when stepping on.
pub open spec fn stepped(position: int, step: int, len: int) -> int {
    if step < 0 {
        most(position + step, 0)
    } else {
        least(position + step, len - 1)
    }
}

/// Moves a position by a step, not past the end that it steps towards.
pub fn step_towards(position: usize, back: bool, distance: usize, len: usize) -> (result: usize)
    requires
        len > 0,
    ensures
        back ==> result == most(position - distance, 0),
        !back ==> result == least(position + distance, len - 1),
{
    if back {
        position.saturating_sub(distance)
    } else {
        min_usize(position.saturating_add(distance), len - 1)
    }
}

/// Moves a position by a step and keeps it within a list of `len` positions.
pub fn step_within(position: usize, step: isize, len: usize) -> (result: usize)
    requires
        len > 0,
    ensures
        result == clamped(position + step, 0, len - 1),
{
    if step < 0 {
        min_usize(position.saturating_sub(magnitude(step)), len - 1)
    } else {
        min_usize(position.saturating_add(magnitude(step)), len - 1)
    }
}

/// A fraction, rounded to the nearest whole number; a half is rounded up.
pub open spec fn rounded(numerator: int, denominator: int) -> int {
    (2 * numerator + denominator) / (2 * denominator)
}

/// A fraction, rounded to the nearest whole number.
pub fn round_fraction(numerator: u128, denominator: u128) -> (result: u128)
    requires
        denominator > 0,
        2 * numerator + denominator <= u128::MAX,
        2 * denominator <= u128::MAX,
    ensures
        result == rounded(numerator as int, denominator as int),
{
    (2 * numerator + denominator) / (2 * denominator)
}

/// A whole number is rounded to itself.
pub proof fn lemma_rounded_whole(whole: int, denominator: int)
    requires
        0 < denominator,
    ensures
        rounded(whole * denominator, denominator) == whole,
{
    let top = 2 * (whole * denominator) + denominator;
    let bottom = 2 * denominator;
    assert(top == whole * bottom + denominator) by (nonlinear_arith)
        requires
            top == 2 * (whole * denominator) + denominator,
            bottom == 2 * denominator,
    ;
    vstd::arithmetic::div_mod::lemma_fundamental_div_mod_converse(
        top,
        bottom,
        whole,
        denominator,
    );
}

} // verus!
