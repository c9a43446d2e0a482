//! Numbers with 53 significant bits: the arithmetic in which sizes and times are scaled.
//!
//! A number is counted in units of the smallest step there is, 2^-1074. A sum, product
//! or quotient is the number next to the exact one, and of two that are equally near the
//! even one, as IEEE 754 has it for its format binary64.

use vstd::arithmetic::div_mod::{
    lemma_fundamental_div_mod, lemma_fundamental_div_mod_converse, lemma_mod_bound,
};
use vstd::arithmetic::power2::{lemma_pow2_adds, lemma_pow2_pos, lemma_pow2_unfold, pow2};
use vstd::prelude::*;

use crate::numbers::{least, most, rounded};

verus! {

/// The smallest number that has 53 bits, and the smallest that has more.
pub const LOW: u64 = 0x10_0000_0000_0000;

pub const HIGH: u64 = 0x20_0000_0000_0000;

/// How many units a power of two has.
pub open spec fn power(exponent: int) -> int {
    pow2((exponent + 1074) as nat) as int
}

/// How many units the number one has.
pub open spec fn unit() -> int {
    power(0)
}

/// A fraction, rounded to the nearest whole number; a half is rounded to the even one.
pub open spec fn half_even(numerator: int, denominator: int) -> int {
    let whole = numerator / denominator;
    let rest = numerator % denominator;
    if 2 * rest < denominator || (2 * rest == denominator && whole % 2 == 0) {
        whole
    } else {
        whole + 1
    }
}

/// The step from one number to the next about a number of units.
pub open spec fn step_at(units: int) -> int
    decreases units,
{
    if units < HIGH {
        1
    } else {
        2 * step_at(units / 2)
    }
}

/// The number nearest to a fraction.
#[verifier::opaque]
pub open spec fn nearest(numerator: int, denominator: int) -> int {
    let step = step_at(numerator * unit() / denominator);
    half_even(numerator * unit(), denominator * step) * step
}

/// The number nearest to a whole number.
pub open spec fn whole(n: int) -> int {
    nearest(n, 1)
}

/// The quotient of two numbers.
pub open spec fn quotient(a: int, b: int) -> int {
    nearest(a, b)
}

/// The product of two numbers.
pub open spec fn product(a: int, b: int) -> int {
    nearest(a * b, unit() * unit())
}

/// The sum of two numbers.
pub open spec fn sum(a: int, b: int) -> int {
    nearest(a + b, unit())
}

/// The nanoseconds of a second.
pub const NANOS: u64 = 1_000_000_000;

/// A number of nanoseconds in seconds.
pub open spec fn seconds(nanos: int) -> int {
    sum(whole(nanos / NANOS as int), quotient(whole(nanos % NANOS as int), whole(NANOS as int)))
}

/// A number of seconds in nanoseconds.
pub open spec fn nanoseconds(seconds: int) -> int {
    half_even(seconds * NANOS, unit())
}

proof fn lemma_power_step(exponent: int)
    requires
        exponent > -1074,
    ensures
        power(exponent) == 2 * power(exponent - 1),
        power(exponent) > 0,
        power(exponent - 1) > 0,
{
    lemma_pow2_unfold((exponent + 1074) as nat);
    lemma_pow2_pos((exponent + 1074) as nat);
    lemma_pow2_pos((exponent + 1073) as nat);
}

proof fn lemma_power_positive(exponent: int)
    ensures
        power(exponent) > 0,
{
    lemma_pow2_pos((exponent + 1074) as nat);
}

/// The units of a power of two, shifted.
proof fn lemma_power_shift(exponent: int, shift: nat)
    requires
        exponent >= -1074,
    ensures
        power(exponent + shift) == power(exponent) * pow2(shift),
{
    lemma_pow2_adds((exponent + 1074) as nat, shift);
    assert((exponent + shift + 1074) as nat == (exponent + 1074) as nat + shift);
}

/// A fraction that is as large as another one is rounded to the same number.
proof fn lemma_half_even_ratio(a: int, b: int, c: int, d: int)
    requires
        a >= 0,
        b > 0,
        c >= 0,
        d > 0,
        a * d == c * b,
    ensures
        half_even(a, b) == half_even(c, d),
{
    let q = a / b;
    let r = a % b;
    lemma_fundamental_div_mod(a, b);
    lemma_mod_bound(a, b);
    let s = c - q * d;
    assert(s * b == r * d) by (nonlinear_arith)
        requires
            a == b * q + r,
            a * d == c * b,
            s == c - q * d,
    ;
    assert(0 <= s) by (nonlinear_arith)
        requires
            s * b == r * d,
            r >= 0,
            d > 0,
            b > 0,
    ;
    assert(s < d) by (nonlinear_arith)
        requires
            s * b == r * d,
            r < b,
            d > 0,
            b > 0,
    ;
    lemma_fundamental_div_mod_converse(c, d, q, s);
    assert(2 * r < b <==> 2 * s < d) by (nonlinear_arith)
        requires
            s * b == r * d,
            d > 0,
            b > 0,
    ;
    assert(2 * r == b <==> 2 * s == d) by (nonlinear_arith)
        requires
            s * b == r * d,
            d > 0,
            b > 0,
    ;
}

/// Rounding moves a fraction by half of its denominator at most.
proof fn lemma_half_even_error(a: int, b: int)
    requires
        a >= 0,
        b > 0,
    ensures
        -b <= 2 * (half_even(a, b) * b - a) <= b,
        0 <= half_even(a, b),
{
    lemma_fundamental_div_mod(a, b);
    lemma_mod_bound(a, b);
    let q = a / b;
    let r = a % b;
    assert(q >= 0) by (nonlinear_arith)
        requires
            a == b * q + r,
            a >= 0,
            r < b,
            b > 0,
    ;
    assert(q * b == b * q) by (nonlinear_arith);
    assert((q + 1) * b == b * q + b) by (nonlinear_arith);
}

proof fn lemma_step(units: int, k: nat)
    requires
        LOW * pow2(k) <= units < HIGH * pow2(k),
    ensures
        step_at(units) == pow2(k),
    decreases k,
{
    lemma_pow2_pos(k);
    if k == 0 {
        vstd::arithmetic::power2::lemma2_to64();
    } else {
        lemma_pow2_unfold(k);
        let half = pow2((k - 1) as nat) as int;
        lemma_pow2_pos((k - 1) as nat);
        assert(HIGH <= LOW * pow2(k)) by (nonlinear_arith)
            requires
                pow2(k) == 2 * half,
                half >= 1,
        ;
        assert(LOW * half <= units / 2 < HIGH * half) by {
            assert(LOW * pow2(k) == 2 * (LOW * half)) by (nonlinear_arith)
                requires
                    pow2(k) == 2 * half,
            ;
            assert(HIGH * pow2(k) == 2 * (HIGH * half)) by (nonlinear_arith)
                requires
                    pow2(k) == 2 * half,
            ;
        }
        lemma_step(units / 2, (k - 1) as nat);
    }
}

proof fn lemma_step_is_small(units: int)
    requires
        units >= LOW,
    ensures
        step_at(units) >= 1,
        step_at(units) * LOW <= units,
    decreases units,
{
    if units >= HIGH {
        lemma_step_is_small(units / 2);
        let half = step_at(units / 2);
        assert(2 * half * LOW == 2 * (half * LOW)) by (nonlinear_arith);
    }
}

proof fn lemma_step_positive(units: int)
    ensures
        step_at(units) >= 1,
    decreases units,
{
    if units >= HIGH {
        lemma_step_positive(units / 2);
    }
}

/// The number nearest to a fraction, where another fraction that has 53 bits before the
/// point is as large but for a power of two.
proof fn lemma_nearest(n: int, d: int, a: int, b: int, k: nat)
    requires
        n >= 0,
        d > 0,
        b > 0,
        n * unit() * b == a * d * pow2(k),
        LOW * b <= a < HIGH * b,
    ensures
        nearest(n, d) == half_even(a, b) * pow2(k),
{
    reveal(nearest);
    let p = pow2(k) as int;
    lemma_pow2_pos(k);
    let top = n * unit();
    lemma_power_positive(0);
    assert(top >= 0) by (nonlinear_arith)
        requires
            n >= 0,
            unit() > 0,
            top == n * unit(),
    ;
    assert(top >= (LOW * p) * d) by (nonlinear_arith)
        requires
            top * b == a * d * p,
            LOW * b <= a,
            b > 0,
            d > 0,
            p > 0,
    ;
    assert(top < (HIGH * p) * d) by (nonlinear_arith)
        requires
            top * b == a * d * p,
            a < HIGH * b,
            b > 0,
            d > 0,
            p > 0,
    ;
    let units = top / d;
    lemma_fundamental_div_mod(top, d);
    lemma_mod_bound(top, d);
    assert(units >= LOW * p) by (nonlinear_arith)
        requires
            top >= (LOW * p) * d,
            top == d * units + top % d,
            top % d < d,
            d > 0,
    ;
    assert(units < HIGH * p) by (nonlinear_arith)
        requires
            top < (HIGH * p) * d,
            top == d * units + top % d,
            top % d >= 0,
            d > 0,
    ;
    lemma_step(units, k);
    assert(top * b == a * (d * p)) by (nonlinear_arith)
        requires
            top * b == a * d * p,
    ;
    assert(d * p > 0) by (nonlinear_arith)
        requires
            d > 0,
            p > 0,
    ;
    assert(a >= 0) by (nonlinear_arith)
        requires
            LOW * b <= a,
            b > 0,
    ;
    lemma_half_even_ratio(top, d * p, a, b);
}

/// The number nearest to a fraction is off by one part in 2^53 at most.
proof fn lemma_nearest_error(n: int, d: int)
    requires
        n >= 0,
        d > 0,
        n * unit() >= d * LOW,
    ensures
        nearest(n, d) * d * HIGH <= n * unit() * (HIGH + 1),
        nearest(n, d) * d * HIGH >= n * unit() * (HIGH - 1),
        nearest(n, d) >= 0,
{
    reveal(nearest);
    let top = n * unit();
    let units = top / d;
    lemma_fundamental_div_mod(top, d);
    lemma_mod_bound(top, d);
    assert(units >= LOW) by (nonlinear_arith)
        requires
            top >= d * LOW,
            top == d * units + top % d,
            top % d < d,
            d > 0,
    ;
    lemma_step_is_small(units);
    let step = step_at(units);
    let whole = half_even(top, d * step);
    assert(d * step > 0) by (nonlinear_arith)
        requires
            d > 0,
            step >= 1,
    ;
    assert(top >= 0) by (nonlinear_arith)
        requires
            top >= d * LOW,
            d > 0,
    ;
    lemma_half_even_error(top, d * step);
    let found = whole * step;
    assert(found * d == whole * (d * step)) by (nonlinear_arith)
        requires
            found == whole * step,
    ;
    assert(d * step * LOW <= top) by (nonlinear_arith)
        requires
            step * LOW <= units,
            top == d * units + top % d,
            top % d >= 0,
            d > 0,
    ;
    assert(found * d * HIGH <= top * (HIGH + 1)) by (nonlinear_arith)
        requires
            2 * (found * d - top) <= d * step,
            d * step * LOW <= top,
            HIGH == 2 * LOW,
    ;
    assert(found * d * HIGH >= top * (HIGH - 1)) by (nonlinear_arith)
        requires
            2 * (found * d - top) >= -(d * step),
            d * step * LOW <= top,
            HIGH == 2 * LOW,
    ;
    assert(found >= 0) by (nonlinear_arith)
        requires
            found == whole * step,
            whole >= 0,
            step >= 1,
    ;
}

/// Nothing is nearest to nothing.
pub proof fn lemma_nearest_zero(d: int)
    requires
        d > 0,
    ensures
        nearest(0, d) == 0,
{
    reveal(nearest);
    let step = step_at(0);
    assert(0 * unit() == 0);
    assert(0int / d == 0) by {
        lemma_fundamental_div_mod_converse(0, d, 0, 0);
    }
    assert(step == 1);
    assert(d * 1 == d);
    lemma_fundamental_div_mod_converse(0, d, 0, 0);
}

/// A number: its bits, and the power of two by which they are multiplied.
#[derive(Debug, Clone, Copy, PartialEq, Eq, Structural)]
pub struct Binary {
    pub mantissa: u64,
    pub exponent: i32,
}

impl View for Binary {
    type V = int;

    open spec fn view(&self) -> int {
        self.mantissa * power(self.exponent as int)
    }
}

impl Binary {
    /// Whether the number is zero or has 53 bits, and its exponent is within a bound.
    pub open spec fn within(self, bound: int) -> bool {
        &&& self.mantissa == 0 || LOW <= self.mantissa < HIGH
        &&& -bound <= self.exponent <= bound
    }
}

/// A power of two.
fn power_of_two(k: u32) -> (result: u128)
    requires
        k < 128,
    ensures
        result == pow2(k as nat),
        result >= 1,
{
    let mut result: u128 = 1;
    let mut index: u32 = 0;
    proof {
        vstd::arithmetic::power2::lemma2_to64();
    }
    while index < k
        invariant
            index <= k < 128,
            result == pow2(index as nat),
        decreases k - index,
    {
        proof {
            lemma_pow2_unfold((index + 1) as nat);
            lemma_small_power((index + 1) as nat);
        }
        result = result * 2;
        index += 1;
    }
    proof {
        lemma_pow2_pos(k as nat);
    }
    result
}

proof fn lemma_small_power(k: nat)
    requires
        k <= 127,
    ensures
        1 <= pow2(k) <= 0x8000_0000_0000_0000_0000_0000_0000_0000,
{
    vstd::arithmetic::power2::lemma2_to64();
    vstd::arithmetic::power2::lemma2_to64_rest();
    lemma_pow2_pos(k);
    lemma_pow2_adds(63, 64);
    assert(pow2(127) == 0x8000_0000_0000_0000_0000_0000_0000_0000) by {
        assert(pow2(63) == 0x8000_0000_0000_0000);
        assert(pow2(64) == 0x1_0000_0000_0000_0000);
        assert(63nat + 64nat == 127nat);
    }
    if k < 127 {
        vstd::arithmetic::power2::lemma_pow2_strictly_increases(k, 127);
    }
}

/// A fraction, rounded to the nearest whole number, a half to the even one.
fn round_half_even(numerator: u128, denominator: u128) -> (result: u128)
    requires
        0 < denominator <= 0x8000_0000_0000_0000_0000_0000_0000_0000,
        numerator < 0x8000_0000_0000_0000_0000_0000_0000_0000,
    ensures
        result == half_even(numerator as int, denominator as int),
{
    let whole: u128 = numerator / denominator;
    let rest: u128 = numerator % denominator;
    proof {
        lemma_mod_bound(numerator as int, denominator as int);
        assert(whole <= numerator) by (nonlinear_arith)
            requires
                whole == numerator as int / denominator as int,
                denominator >= 1,
                numerator >= 0,
        ;
    }
    let missing: u128 = denominator - rest;
    if rest < missing || (rest == missing && whole % 2 == 0) {
        whole
    } else {
        whole + 1
    }
}

impl Binary {
    /// The number with some bits, of which there may be one more than there is room for
    /// where it is the only one.
    fn with_bits(bits: u128, exponent: i32) -> (result: Binary)
        requires
            LOW <= bits <= HIGH,
            -1074 <= exponent < 1000,
        ensures
            result@ == bits * power(exponent as int),
            LOW <= result.mantissa < HIGH,
            exponent <= result.exponent <= exponent + 1,
    {
        if bits == HIGH as u128 {
            proof {
                lemma_power_step(exponent + 1);
                assert(HIGH * power(exponent as int) == LOW * (2 * power(exponent as int)))
                    by (nonlinear_arith)
                    requires
                        HIGH == 2 * LOW,
                ;
            }
            Binary { mantissa: LOW, exponent: exponent + 1 }
        } else {
            Binary { mantissa: bits as u64, exponent }
        }
    }

    /// The number nearest to a fraction with 53 bits before the point, times a power of
    /// two.
    fn rounded_to(numerator: u128, denominator: u128, exponent: i32) -> (result: Binary)
        requires
            0 < denominator <= 0x8000_0000_0000_0000_0000_0000_0000_0000,
            numerator < 0x8000_0000_0000_0000_0000_0000_0000_0000,
            LOW * denominator <= numerator < HIGH * denominator,
            -1074 <= exponent < 1000,
        ensures
            result@ == half_even(numerator as int, denominator as int) * power(exponent as int),
            LOW <= result.mantissa < HIGH,
            exponent <= result.exponent <= exponent + 1,
    {
        let bits: u128 = round_half_even(numerator, denominator);
        proof {
            let (a, b) = (numerator as int, denominator as int);
            lemma_half_even_error(a, b);
            assert(bits >= LOW) by (nonlinear_arith)
                requires
                    LOW * b <= a,
                    2 * (bits * b - a) >= -b,
                    b > 0,
            ;
            assert(bits <= HIGH) by (nonlinear_arith)
                requires
                    a < HIGH * b,
                    2 * (bits * b - a) <= b,
                    b > 0,
            ;
        }
        Binary::with_bits(bits, exponent)
    }

    /// Zero.
    fn zero() -> (result: Binary)
        ensures
            result@ == 0,
            result.within(0),
            result.mantissa == 0,
    {
        proof {
            assert(0 * power(0) == 0);
        }
        Binary { mantissa: 0, exponent: 0 }
    }

    /// The number nearest to a whole number.
    pub fn from_whole(n: u128) -> (result: Binary)
        requires
            n < 0x8000_0000_0000_0000_0000_0000_0000_0000,
        ensures
            result@ == whole(n as int),
            result.within(80),
            n < HIGH ==> result.within(52),
            n > 0 ==> result.mantissa > 0,
    {
        if n == 0 {
            proof {
                lemma_nearest_zero(1);
            }
            return Binary::zero();
        }
        if n < HIGH as u128 {
            Binary::from_small(n as u64)
        } else {
            Binary::from_large(n)
        }
    }

    /// The number that a whole number with no more than 53 bits is.
    fn from_small(n: u64) -> (result: Binary)
        requires
            0 < n < HIGH,
        ensures
            result@ == whole(n as int),
            result.within(52),
            result.mantissa > 0,
    {
        let mut mantissa: u64 = n;
        let mut exponent: i32 = 0;
        proof {
            vstd::arithmetic::power2::lemma2_to64();
            assert(n * 1 == n);
        }
        while mantissa < LOW
            invariant
                0 < n <= mantissa < HIGH,
                -52 <= exponent <= 0,
                mantissa == n * pow2((-exponent) as nat),
            decreases HIGH - mantissa,
        {
            proof {
                lemma_pow2_unfold((1 - exponent) as nat);
                let p = pow2((-exponent) as nat) as int;
                assert(n * (2 * p) == 2 * (n * p)) by (nonlinear_arith);
                if exponent == -52 {
                    vstd::arithmetic::power2::lemma2_to64_rest();
                    assert(n * p >= p) by (nonlinear_arith)
                        requires
                            n >= 1,
                            p >= 1,
                    ;
                }
            }
            mantissa = mantissa * 2;
            exponent = exponent - 1;
        }
        proof {
            let p = pow2((-exponent) as nat) as int;
            lemma_power_shift(exponent as int, (-exponent) as nat);
            let u = power(exponent as int);
            assert(n * (u * p) * 1 == (n * p) * 1 * u) by (nonlinear_arith);
            lemma_nearest(n as int, 1, mantissa as int, 1, (exponent + 1074) as nat);
            assert(half_even(mantissa as int, 1) == mantissa) by {
                lemma_fundamental_div_mod_converse(mantissa as int, 1, mantissa as int, 0);
            }
        }
        Binary { mantissa, exponent }
    }

    /// The number nearest to a whole number with more than 53 bits.
    fn from_large(n: u128) -> (result: Binary)
        requires
            HIGH <= n < 0x8000_0000_0000_0000_0000_0000_0000_0000,
        ensures
            result@ == whole(n as int),
            result.within(80),
            result.mantissa > 0,
    {
        let mut step: u128 = 1;
        let mut exponent: i32 = 0;
        proof {
            vstd::arithmetic::power2::lemma2_to64();
            lemma_fundamental_div_mod_converse(n as int, 1, n as int, 0);
        }
        while n / step >= HIGH as u128
            invariant
                n < 0x8000_0000_0000_0000_0000_0000_0000_0000,
                0 <= exponent <= 74,
                step == pow2(exponent as nat),
                step >= 1,
                LOW * step <= n,
            decreases n / step,
        {
            proof {
                lemma_pow2_unfold((exponent + 1) as nat);
                lemma_fundamental_div_mod(n as int, step as int);
                lemma_mod_bound(n as int, step as int);
                let q = n as int / step as int;
                assert(HIGH * step <= n) by (nonlinear_arith)
                    requires
                        n == step * q + n as int % step as int,
                        n as int % step as int >= 0,
                        q >= HIGH,
                        step >= 1,
                ;
                if exponent == 74 {
                    lemma_pow2_adds(53, 74);
                    vstd::arithmetic::power2::lemma2_to64_rest();
                    lemma_small_power_value();
                }
                lemma_small_power((exponent + 1) as nat);
                vstd::arithmetic::div_mod::lemma_div_denominator(n as int, step as int, 2);
                assert(step * 2 == 2 * step);
            }
            step = step * 2;
            exponent = exponent + 1;
        }
        proof {
            lemma_fundamental_div_mod(n as int, step as int);
            lemma_mod_bound(n as int, step as int);
            let q = n as int / step as int;
            assert(n < HIGH * step) by (nonlinear_arith)
                requires
                    n == step * q + n as int % step as int,
                    (n as int % step as int) < step,
                    q < HIGH,
                    step >= 1,
            ;
            lemma_small_power(exponent as nat);
            lemma_power_shift(0, exponent as nat);
            let u = unit();
            assert(n * u * step == n * 1 * (u * step)) by (nonlinear_arith);
            lemma_nearest(n as int, 1, n as int, step as int, (exponent + 1074) as nat);
        }
        Binary::rounded_to(n, step, exponent)
    }
}

impl Binary {
    /// The quotient of two numbers.
    pub fn quotient(self, other: Binary) -> (result: Binary)
        requires
            self.within(450),
            other.within(450),
            other.mantissa > 0,
        ensures
            result@ == quotient(self@, other@),
            result.within(self.span() + other.span() + 54),
            result.mantissa > 0 <==> self.mantissa > 0,
    {
        proof {
            lemma_power_positive(self.exponent as int);
            lemma_power_positive(other.exponent as int);
            assert(other@ > 0) by (nonlinear_arith)
                requires
                    other@ == other.mantissa * power(other.exponent as int),
                    other.mantissa > 0,
                    power(other.exponent as int) > 0,
            ;
        }
        if self.mantissa == 0 {
            proof {
                assert(self@ == 0) by (nonlinear_arith)
                    requires
                        self@ == self.mantissa * power(self.exponent as int),
                        self.mantissa == 0,
                ;
                lemma_nearest_zero(other@);
            }
            return Binary::zero();
        }
        let shift: u32 = if self.mantissa >= other.mantissa {
            52
        } else {
            53
        };
        let factor: u128 = power_of_two(shift);
        proof {
            vstd::arithmetic::power2::lemma2_to64_rest();
            let (x, y, f) = (self.mantissa as int, other.mantissa as int, factor as int);
            assert(x * f < 0x8000_0000_0000_0000_0000_0000_0000_0000) by (nonlinear_arith)
                requires
                    0 <= x < HIGH,
                    0 <= f <= HIGH,
            ;
            assert(LOW * y <= x * f < HIGH * y) by (nonlinear_arith)
                requires
                    LOW <= x < HIGH,
                    LOW <= y < HIGH,
                    HIGH == 2 * LOW,
                    x >= y && f == LOW || x < y && f == HIGH,
            ;
        }
        let exponent: i32 = self.exponent - other.exponent - shift as i32;
        let numerator: u128 = self.mantissa as u128 * factor;
        proof {
            let (x, y, f) = (self.mantissa as int, other.mantissa as int, factor as int);
            let (p, q) = (power(self.exponent as int), power(other.exponent as int));
            let r = power(exponent as int);
            // Both sides of `p * unit() == f * q * r` are powers of two.
            lemma_power_products(self.exponent as int, 0);
            lemma_power_products(other.exponent as int, exponent as int);
            lemma_pow2_adds(
                (other.exponent + 1074 + exponent + 1074) as nat,
                shift as nat,
            );
            assert((other.exponent + 1074 + exponent + 1074) as nat + shift as nat == (
            self.exponent + 1074 + 1074) as nat);
            assert(p * unit() == (q * r) * f);
            let u = unit();
            assert((x * p) * u * y == (x * y) * (p * u)) by (nonlinear_arith);
            assert((x * f) * (y * q) * r == (x * y) * ((q * r) * f)) by (nonlinear_arith);
            lemma_nearest(self@, other@, numerator as int, y, (exponent + 1074) as nat);
        }
        Binary::rounded_to(numerator, other.mantissa as u128, exponent)
    }

    /// How far the exponent is from zero.
    pub open spec fn span(self) -> int {
        if self.exponent < 0 {
            -self.exponent
        } else {
            self.exponent as int
        }
    }

    /// The product of two numbers.
    pub fn product(self, other: Binary) -> (result: Binary)
        requires
            self.within(450),
            other.within(450),
        ensures
            result@ == product(self@, other@),
            result.within(self.span() + other.span() + 54),
            result.mantissa > 0 <==> self.mantissa > 0 && other.mantissa > 0,
    {
        proof {
            lemma_power_positive(0);
            assert(unit() * unit() > 0) by (nonlinear_arith)
                requires
                    unit() > 0,
            ;
        }
        if self.mantissa == 0 || other.mantissa == 0 {
            proof {
                let (p, q) = (power(self.exponent as int), power(other.exponent as int));
                assert(self@ * other@ == 0) by (nonlinear_arith)
                    requires
                        self@ == self.mantissa * p,
                        other@ == other.mantissa * q,
                        self.mantissa == 0 || other.mantissa == 0,
                ;
                lemma_nearest_zero(unit() * unit());
            }
            return Binary::zero();
        }
        proof {
            let (x, y) = (self.mantissa as int, other.mantissa as int);
            assert(LOW * LOW <= x * y < HIGH * HIGH) by (nonlinear_arith)
                requires
                    LOW <= x < HIGH,
                    LOW <= y < HIGH,
            ;
            assert(LOW * HIGH == 0x200_0000_0000_0000_0000_0000_0000);
        }
        let numerator: u128 = self.mantissa as u128 * other.mantissa as u128;
        let shift: u32 = if numerator < 0x200_0000_0000_0000_0000_0000_0000 {
            52
        } else {
            53
        };
        let factor: u128 = power_of_two(shift);
        proof {
            vstd::arithmetic::power2::lemma2_to64_rest();
        }
        let exponent: i32 = self.exponent + other.exponent + shift as i32;
        proof {
            let (x, y, f) = (self.mantissa as int, other.mantissa as int, factor as int);
            let (p, q) = (power(self.exponent as int), power(other.exponent as int));
            let r = power(exponent as int);
            lemma_power_products(self.exponent as int, other.exponent as int);
            lemma_power_products(exponent as int, 0);
            lemma_pow2_adds(
                (self.exponent + 1074 + other.exponent + 1074) as nat,
                shift as nat,
            );
            assert((self.exponent + 1074 + other.exponent + 1074) as nat + shift as nat == (
            exponent + 1074 + 1074) as nat);
            assert((p * q) * f == r * unit());
            let u = unit();
            let (n, g) = (x * y, p * q);
            assert((x * p) * (y * q) == n * g) by (nonlinear_arith)
                requires
                    n == x * y,
                    g == p * q,
            ;
            assert((n * g) * u * f == n * u * (g * f)) by (nonlinear_arith);
            assert(n * u * (r * u) == n * (u * u) * r) by (nonlinear_arith);
            assert(self@ * other@ >= 0) by (nonlinear_arith)
                requires
                    self@ == x * p,
                    other@ == y * q,
                    x >= 0,
                    y >= 0,
                    p >= 0,
                    q >= 0,
            ;
            lemma_nearest(
                self@ * other@,
                u * u,
                numerator as int,
                f,
                (exponent + 1074) as nat,
            );
        }
        Binary::rounded_to(numerator, factor, exponent)
    }

    /// The sum of two numbers.
    pub fn sum(self, other: Binary) -> (result: Binary)
        requires
            self.within(450),
            other.within(450),
        ensures
            result@ == sum(self@, other@),
            result.within(self.span() + other.span() + 2),
            result.mantissa > 0 <==> self.mantissa > 0 || other.mantissa > 0,
    {
        if self.mantissa == 0 {
            proof {
                let p = power(self.exponent as int);
                assert(self@ == 0) by (nonlinear_arith)
                    requires
                        self@ == self.mantissa * p,
                        self.mantissa == 0,
                ;
                lemma_number_is_itself(other);
            }
            return other;
        }
        if other.mantissa == 0 {
            proof {
                let p = power(other.exponent as int);
                assert(other@ == 0) by (nonlinear_arith)
                    requires
                        other@ == other.mantissa * p,
                        other.mantissa == 0,
                ;
                lemma_number_is_itself(self);
            }
            return self;
        }
        if self.exponent >= other.exponent {
            sum_of(self, other)
        } else {
            sum_of(other, self)
        }
    }

    /// Whether a number is at most another one.
    pub fn at_most(self, other: Binary) -> (result: bool)
        requires
            self.within(1000),
            other.within(1000),
        ensures
            result == (self@ <= other@),
    {
        proof {
            lemma_compared(self, other);
            lemma_compared(other, self);
        }
        if self.mantissa == 0 {
            true
        } else if other.mantissa == 0 {
            false
        } else if self.exponent != other.exponent {
            self.exponent < other.exponent
        } else {
            self.mantissa <= other.mantissa
        }
    }

    /// The larger of two numbers.
    pub fn most(self, other: Binary) -> (result: Binary)
        requires
            self.within(1000),
            other.within(1000),
        ensures
            result@ == most(self@, other@),
            result == self || result == other,
    {
        if self.at_most(other) {
            other
        } else {
            self
        }
    }

    /// The smaller of two numbers.
    pub fn least(self, other: Binary) -> (result: Binary)
        requires
            self.within(1000),
            other.within(1000),
        ensures
            result@ == least(self@, other@),
            result == self || result == other,
    {
        if self.at_most(other) {
            self
        } else {
            other
        }
    }

    /// The nearest whole number, a half rounded up, as far as it can be held.
    pub fn to_u32(self) -> (result: u32)
        requires
            self.within(1000),
        ensures
            result == least(rounded(self@, unit()), u32::MAX as int),
    {
        if self.exponent >= 0 {
            proof {
                lemma_power_shift(0, self.exponent as nat);
                lemma_pow2_pos(self.exponent as nat);
                lemma_power_positive(0);
                let p = pow2(self.exponent as nat) as int;
                let (m, u) = (self.mantissa as int, unit());
                assert(m * (u * p) == (m * p) * u) by (nonlinear_arith);
                crate::numbers::lemma_rounded_whole(m * p, u);
                assert(m * p >= m) by (nonlinear_arith)
                    requires
                        m >= 0,
                        p >= 1,
                ;
                if m == 0 {
                    assert(m * p == 0) by (nonlinear_arith)
                        requires
                            m == 0,
                    ;
                }
            }
            return if self.mantissa == 0 {
                0
            } else {
                u32::MAX
            };
        }
        let shift: u32 = (-self.exponent) as u32;
        proof {
            lemma_power_shift(self.exponent as int, shift as nat);
            lemma_power_positive(self.exponent as int);
            lemma_pow2_pos(shift as nat);
            let p = power(self.exponent as int);
            let (m, d) = (self.mantissa as int, pow2(shift as nat) as int);
            assert(self@ == m * p && unit() == p * d);
            lemma_rounded_scaled(m, d, p);
        }
        if shift > 100 {
            proof {
                lemma_pow2_at_least(shift as nat, 100);
                lemma_pow2_adds(50, 50);
                vstd::arithmetic::power2::lemma2_to64_rest();
                let (m, d) = (self.mantissa as int, pow2(shift as nat) as int);
                assert(50nat + 50nat == 100nat);
                assert(2 * m + d < 2 * d);
                lemma_fundamental_div_mod_converse(2 * m + d, 2 * d, 0, 2 * m + d);
            }
            return 0;
        }
        let denominator: u128 = power_of_two(shift);
        proof {
            lemma_small_power((shift + 1) as nat);
            lemma_pow2_unfold((shift + 1) as nat);
            lemma_pow2_at_least(101, (shift + 1) as nat);
            lemma_pow2_adds(50, 51);
            vstd::arithmetic::power2::lemma2_to64_rest();
            assert(50nat + 51nat == 101nat);
        }
        let result: u128 = crate::numbers::round_fraction(self.mantissa as u128, denominator);
        if result > u32::MAX as u128 {
            u32::MAX
        } else {
            result as u32
        }
    }

    /// A number of seconds in nanoseconds, as far as they can be held.
    pub fn to_nanoseconds(self) -> (result: u128)
        requires
            self.within(1000),
        ensures
            result == least(nanoseconds(self@), u128::MAX as int),
    {
        proof {
            let m = self.mantissa as int;
            assert(m * NANOS < 0x80_0000_0000_0000_0000_0000) by (nonlinear_arith)
                requires
                    0 <= m < HIGH,
            ;
            lemma_power_positive(self.exponent as int);
            lemma_power_positive(0);
        }
        let counted: u128 = self.mantissa as u128 * NANOS as u128;
        if self.exponent >= 0 {
            let shift: u32 = self.exponent as u32;
            proof {
                lemma_power_shift(0, shift as nat);
                lemma_pow2_pos(shift as nat);
                let (m, u, p) = (self.mantissa as int, unit(), pow2(shift as nat) as int);
                let c = counted as int;
                assert((m * (u * p)) * NANOS == u * (c * p) + 0) by (nonlinear_arith)
                    requires
                        c == m * NANOS,
                ;
                assert(u * (c * p) == (c * p) * u) by (nonlinear_arith);
                lemma_fundamental_div_mod_converse(self@ * NANOS, u, c * p, 0);
                assert(nanoseconds(self@) == c * p);
                if c == 0 {
                    assert(c * p == 0) by (nonlinear_arith)
                        requires
                            c == 0,
                    ;
                }
            }
            if counted == 0 {
                return 0;
            }
            if shift > 127 {
                proof {
                    lemma_pow2_at_least(shift as nat, 127);
                    lemma_small_power_value();
                    lemma_pow2_adds(53, 74);
                    let (c, p) = (counted as int, pow2(shift as nat) as int);
                    assert(53nat + 74nat == 127nat);
                    assert(c * p >= u128::MAX) by (nonlinear_arith)
                        requires
                            c >= 2,
                            p >= 0x8000_0000_0000_0000_0000_0000_0000_0000,
                    ;
                }
                return u128::MAX;
            }
            let factor: u128 = power_of_two(shift);
            return match counted.checked_mul(factor) {
                Some(nanos) => nanos,
                None => u128::MAX,
            };
        }
        let shift: u32 = (-self.exponent) as u32;
        proof {
            lemma_power_shift(self.exponent as int, shift as nat);
            lemma_pow2_pos(shift as nat);
            let (m, d, p) = (
                self.mantissa as int,
                pow2(shift as nat) as int,
                power(self.exponent as int),
            );
            let c = counted as int;
            assert(((m * p) * NANOS) * d == c * (p * d)) by (nonlinear_arith)
                requires
                    c == m * NANOS,
            ;
            assert((m * p) * NANOS >= 0) by (nonlinear_arith)
                requires
                    m >= 0,
                    p >= 0,
            ;
            lemma_half_even_ratio(self@ * NANOS, unit(), c, d);
        }
        if shift > 126 {
            proof {
                lemma_pow2_at_least(shift as nat, 126);
                lemma_pow2_adds(63, 63);
                vstd::arithmetic::power2::lemma2_to64_rest();
                assert(63nat + 63nat == 126nat);
                assert(pow2(63) == 0x8000_0000_0000_0000);
                lemma_fundamental_div_mod_converse(
                    counted as int,
                    pow2(shift as nat) as int,
                    0,
                    counted as int,
                );
            }
            return 0;
        }
        let denominator: u128 = power_of_two(shift);
        proof {
            lemma_small_power(shift as nat);
        }
        round_half_even(counted, denominator)
    }
}

proof fn lemma_pow2_at_least(more: nat, less: nat)
    requires
        more >= less,
    ensures
        pow2(more) >= pow2(less) > 0,
{
    lemma_pow2_pos(less);
    if more > less {
        vstd::arithmetic::power2::lemma_pow2_strictly_increases(less, more);
    }
}

/// The units of two powers of two, multiplied.
proof fn lemma_power_products(a: int, b: int)
    requires
        a >= -1074,
        b >= -1074,
    ensures
        power(a) * power(b) == pow2((a + 1074 + b + 1074) as nat),
        power(a) > 0,
        power(b) > 0,
{
    lemma_pow2_adds((a + 1074) as nat, (b + 1074) as nat);
    lemma_power_positive(a);
    lemma_power_positive(b);
    assert((a + 1074) as nat + (b + 1074) as nat == (a + 1074 + b + 1074) as nat);
}

/// A fraction is rounded alike in smaller parts.
proof fn lemma_rounded_scaled(n: int, d: int, parts: int)
    requires
        n >= 0,
        d > 0,
        parts > 0,
    ensures
        rounded(n * parts, parts * d) == rounded(n, d),
{
    let top = 2 * n + d;
    let bottom = 2 * d;
    lemma_fundamental_div_mod(top, bottom);
    lemma_mod_bound(top, bottom);
    let (q, r) = (top / bottom, top % bottom);
    assert(2 * (n * parts) + parts * d == q * (2 * (parts * d)) + r * parts) by (nonlinear_arith)
        requires
            top == bottom * q + r,
            top == 2 * n + d,
            bottom == 2 * d,
    ;
    assert(0 <= r * parts < 2 * (parts * d)) by (nonlinear_arith)
        requires
            0 <= r < bottom,
            bottom == 2 * d,
            parts > 0,
    ;
    lemma_fundamental_div_mod_converse(
        2 * (n * parts) + parts * d,
        2 * (parts * d),
        q,
        r * parts,
    );
}

/// A number is the number nearest to it.
proof fn lemma_number_is_itself(x: Binary)
    requires
        x.within(1000),
    ensures
        nearest(x@, unit()) == x@,
{
    let p = power(x.exponent as int);
    let (m, u) = (x.mantissa as int, unit());
    lemma_power_positive(0);
    lemma_power_positive(x.exponent as int);
    if m == 0 {
        assert(x@ == 0) by (nonlinear_arith)
            requires
                x@ == m * p,
                m == 0,
        ;
        lemma_nearest_zero(u);
    } else {
        assert((m * p) * u * 1 == m * u * p) by (nonlinear_arith);
        assert(m * p >= 0) by (nonlinear_arith)
            requires
                m >= 0,
                p >= 0,
        ;
        lemma_nearest(x@, u, m, 1, (x.exponent + 1074) as nat);
        lemma_fundamental_div_mod_converse(m, 1, m, 0);
    }
}

/// Of two numbers other than zero the one with the larger exponent is larger.
proof fn lemma_compared(x: Binary, y: Binary)
    requires
        x.within(1000),
        y.within(1000),
    ensures
        x.mantissa == 0 ==> x@ == 0,
        x.mantissa > 0 ==> x@ > 0,
        x.mantissa > 0 && y.mantissa > 0 && x.exponent < y.exponent ==> x@ < y@,
        x.exponent == y.exponent ==> (x@ <= y@ <==> x.mantissa <= y.mantissa),
{
    let (p, q) = (power(x.exponent as int), power(y.exponent as int));
    let (m, n) = (x.mantissa as int, y.mantissa as int);
    lemma_power_positive(x.exponent as int);
    lemma_power_positive(y.exponent as int);
    assert(m == 0 ==> m * p == 0);
    if m > 0 {
        assert(m * p > 0) by (nonlinear_arith)
            requires
                m > 0,
                p > 0,
        ;
    }
    if x.exponent < y.exponent {
        let shift = (y.exponent - x.exponent) as nat;
        lemma_power_shift(x.exponent as int, shift);
        lemma_pow2_at_least(shift, 1);
        vstd::arithmetic::power2::lemma2_to64();
        let f = pow2(shift) as int;
        if m > 0 && n > 0 {
            assert(m * p < n * (p * f)) by (nonlinear_arith)
                requires
                    0 < m < HIGH,
                    n >= LOW,
                    HIGH == 2 * LOW,
                    f >= 2,
                    p > 0,
            ;
        }
    }
    if x.exponent == y.exponent {
        assert(m * p <= n * p <==> m <= n) by (nonlinear_arith)
            requires
                p > 0,
        ;
    }
}

/// The sum of two numbers, the one with the larger exponent first.
fn sum_of(large: Binary, small: Binary) -> (result: Binary)
    requires
        large.within(450),
        small.within(450),
        large.mantissa > 0,
        small.mantissa > 0,
        large.exponent >= small.exponent,
    ensures
        result@ == sum(large@, small@),
        result@ == sum(small@, large@),
        result.within(large.span() + small.span() + 2),
        result.mantissa > 0,
{
    let shift: u32 = (large.exponent - small.exponent) as u32;
    let ghost (x, y) = (large.mantissa as int, small.mantissa as int);
    let ghost p = power(small.exponent as int);
    let ghost f = pow2(shift as nat) as int;
    let ghost u = unit();
    proof {
        lemma_power_positive(small.exponent as int);
        lemma_power_positive(0);
        lemma_power_shift(small.exponent as int, shift as nat);
        lemma_pow2_pos(shift as nat);
        assert(x * (p * f) + y * p == (x * f + y) * p) by (nonlinear_arith);
        assert(large@ + small@ == (x * f + y) * p);
        assert(large@ + small@ == small@ + large@);
        assert((x * f + y) * p >= 0) by (nonlinear_arith)
            requires
                x >= 0,
                y >= 0,
                f >= 0,
                p >= 0,
        ;
    }
    if shift > 54 {
        proof {
            lemma_pow2_at_least(shift as nat, 54);
            vstd::arithmetic::power2::lemma2_to64_rest();
            assert(LOW * f <= x * f + y < HIGH * f) by (nonlinear_arith)
                requires
                    LOW <= x < HIGH,
                    0 <= y < HIGH,
                    f >= 2 * HIGH,
            ;
            assert(((x * f + y) * p) * u * f == (x * f + y) * u * (p * f)) by (nonlinear_arith);
            lemma_nearest(
                large@ + small@,
                u,
                x * f + y,
                f,
                (large.exponent + 1074) as nat,
            );
            lemma_fundamental_div_mod_converse(x * f + y, f, x, y);
        }
        return large;
    }
    let factor: u128 = power_of_two(shift);
    proof {
        lemma_pow2_at_least(54, shift as nat);
        vstd::arithmetic::power2::lemma2_to64_rest();
        assert(0 <= x * f <= HIGH * (2 * HIGH)) by (nonlinear_arith)
            requires
                0 <= x < HIGH,
                1 <= f <= 2 * HIGH,
        ;
        assert(LOW * f <= x * f + y < (2 * HIGH) * f) by (nonlinear_arith)
            requires
                LOW <= x < HIGH,
                0 <= y < HIGH,
                f >= 1,
        ;
        assert(0 <= HIGH * f <= HIGH * (2 * HIGH)) by (nonlinear_arith)
            requires
                1 <= f <= 2 * HIGH,
        ;
    }
    let numerator: u128 = large.mantissa as u128 * factor + small.mantissa as u128;
    if numerator < HIGH as u128 * factor {
        proof {
            assert(((x * f + y) * p) * u * f == (x * f + y) * u * (p * f)) by (nonlinear_arith);
            lemma_nearest(
                large@ + small@,
                u,
                x * f + y,
                f,
                (large.exponent + 1074) as nat,
            );
        }
        Binary::rounded_to(numerator, factor, large.exponent)
    } else {
        proof {
            lemma_power_step(large.exponent + 1);
            assert(((x * f + y) * p) * u * (2 * f) == (x * f + y) * u * (2 * (p * f)))
                by (nonlinear_arith);
            assert(LOW * (2 * f) == HIGH * f) by (nonlinear_arith)
                requires
                    HIGH == 2 * LOW,
            ;
            assert(HIGH * (2 * f) == (2 * HIGH) * f) by (nonlinear_arith);
            lemma_nearest(
                large@ + small@,
                u,
                x * f + y,
                2 * f,
                (large.exponent + 1 + 1074) as nat,
            );
        }
        Binary::rounded_to(numerator, factor * 2, large.exponent + 1)
    }
}

proof fn lemma_small_power_value()
    ensures
        pow2(53) * pow2(74) == 0x8000_0000_0000_0000_0000_0000_0000_0000,
{
    lemma_pow2_adds(53, 74);
    lemma_pow2_adds(63, 64);
    vstd::arithmetic::power2::lemma2_to64();
    vstd::arithmetic::power2::lemma2_to64_rest();
    assert(53nat + 74nat == 63nat + 64nat);
    assert(pow2(63) == 0x8000_0000_0000_0000);
    assert(pow2(64) == 0x1_0000_0000_0000_0000);
}

/// A number of nanoseconds in seconds.
pub fn seconds_of(nanos: u128) -> (result: Binary)
    ensures
        result@ == seconds(nanos as int),
        result.within(300),
        nanos > 0 ==> result.mantissa > 0,
{
    let count: u128 = nanos / NANOS as u128;
    let rest: u128 = nanos % NANOS as u128;
    assert(count == nanos as int / 1_000_000_000);
    let fraction = Binary::from_whole(rest).quotient(Binary::from_whole(NANOS as u128));
    Binary::from_whole(count).sum(fraction)
}

/// Times are not negative.
pub proof fn lemma_times_are_not_negative(nanos: int, factor: int)
    requires
        0 <= nanos,
        0 <= factor,
    ensures
        0 <= seconds(nanos),
        0 <= nanoseconds(product(seconds(nanos), factor)),
{
    lemma_power_positive(0);
    let u = unit();
    assert(u * u > 0) by (nonlinear_arith)
        requires
            u > 0,
    ;
    lemma_nearest_is_not_negative(nanos / NANOS as int, 1);
    lemma_nearest_is_not_negative(nanos % NANOS as int, 1);
    lemma_whole_is_exact(NANOS as int);
    assert(NANOS * u > 0) by (nonlinear_arith)
        requires
            u > 0,
    ;
    lemma_nearest_is_not_negative(whole(nanos % NANOS as int), whole(NANOS as int));
    lemma_nearest_is_not_negative(
        whole(nanos / NANOS as int) + quotient(
            whole(nanos % NANOS as int),
            whole(NANOS as int),
        ),
        u,
    );
    let s = seconds(nanos);
    assert(s * factor >= 0) by (nonlinear_arith)
        requires
            s >= 0,
            factor >= 0,
    ;
    lemma_nearest_is_not_negative(s * factor, u * u);
    lemma_half_even_error(product(s, factor) * NANOS, u);
}

pub proof fn lemma_nearest_is_not_negative(n: int, d: int)
    requires
        n >= 0,
        d > 0,
    ensures
        nearest(n, d) >= 0,
{
    reveal(nearest);
    lemma_power_positive(0);
    let top = n * unit();
    let step = step_at(top / d);
    lemma_step_positive(top / d);
    assert(top >= 0) by (nonlinear_arith)
        requires
            top == n * unit(),
            n >= 0,
            unit() > 0,
    ;
    assert(d * step > 0) by (nonlinear_arith)
        requires
            d > 0,
            step >= 1,
    ;
    lemma_half_even_error(top, d * step);
    let count = half_even(top, d * step);
    assert(count * step >= 0) by (nonlinear_arith)
        requires
            count >= 0,
            step >= 1,
    ;
}

/// A number times another one, as a whole number.
pub open spec fn scaled(x: int, scale: int) -> int {
    rounded(product(x, scale), unit())
}

/// A whole number with no more than 53 bits is a number.
pub proof fn lemma_whole_is_exact(n: int)
    requires
        0 <= n < HIGH,
    ensures
        whole(n) == n * unit(),
{
    if n == 0 {
        lemma_nearest_zero(1);
    } else {
        vstd::arithmetic::power2::lemma2_to64();
        assert(n * 1 == n);
        lemma_whole_shifted(n, n, 0);
    }
}

proof fn lemma_whole_shifted(n: int, m: int, j: nat)
    requires
        0 < n <= m < HIGH,
        m == n * pow2(j),
        j <= 53,
    ensures
        whole(n) == n * unit(),
    decreases HIGH - m,
{
    let f = pow2(j) as int;
    if m >= LOW {
        lemma_power_shift(-j, j);
        let p = power(-j);
        assert(n * (p * f) * 1 == (n * f) * 1 * p) by (nonlinear_arith);
        lemma_nearest(n, 1, m, 1, (1074 - j) as nat);
        lemma_fundamental_div_mod_converse(m, 1, m, 0);
        assert((n * f) * p == n * (p * f)) by (nonlinear_arith);
    } else {
        lemma_pow2_unfold(j + 1);
        assert(n * (2 * f) == 2 * (n * f)) by (nonlinear_arith);
        if j == 53 {
            vstd::arithmetic::power2::lemma2_to64_rest();
            assert(n * f >= f) by (nonlinear_arith)
                requires
                    n >= 1,
                    f >= 1,
            ;
        }
        lemma_whole_shifted(n, 2 * m, j + 1);
    }
}

/// A large power of two, which bounds sizes and what they are scaled by.
pub const VAST: u64 = 0x4000_0000_0000_0000;

proof fn lemma_unit_is_vast()
    ensures
        unit() >= VAST * VAST * VAST,
{
    vstd::arithmetic::power2::lemma2_to64_rest();
    lemma_pow2_adds(62, 62);
    lemma_pow2_adds(124, 62);
    assert(62nat + 62nat == 124nat);
    assert(124nat + 62nat == 186nat);
    lemma_pow2_at_least(1074, 186);
}

/// Whether a number is neither vast nor next to nothing.
pub open spec fn ordinary(x: int) -> bool {
    x * VAST >= unit() && x <= unit() * (8 * VAST)
}

/// The quotient of a whole number and an ordinary number is not next to nothing.
pub proof fn lemma_quotient_error(c: int, y: int)
    requires
        1 <= c < HIGH,
        ordinary(y),
    ensures
        quotient(c * unit(), y) * y * HIGH <= c * unit() * unit() * (HIGH + 1),
        quotient(c * unit(), y) * y * HIGH >= c * unit() * unit() * (HIGH - 1),
        quotient(c * unit(), y) * (16 * VAST) >= unit(),
{
    let u = unit();
    lemma_unit_is_vast();
    let q = quotient(c * u, y);
    assert(y > 0) by (nonlinear_arith)
        requires
            y * VAST >= u,
            u > 0,
    ;
    assert((c * u) * u >= y * LOW) by (nonlinear_arith)
        requires
            c >= 1,
            u >= VAST * VAST * VAST,
            y <= u * (8 * VAST),
            LOW < VAST,
    ;
    assert(c * u >= 0) by (nonlinear_arith)
        requires
            c >= 1,
            u > 0,
    ;
    lemma_nearest_error(c * u, y);
    assert(q * (16 * VAST) >= u) by (nonlinear_arith)
        requires
            q * y * HIGH >= c * u * u * (HIGH - 1),
            y <= u * (8 * VAST),
            c >= 1,
            u > 0,
            q >= 0,
            2 * (HIGH - 1) >= HIGH,
    ;
}

/// A number that is at most another one, scaled by what makes that other one a whole
/// number at most, is no more than the whole number; and it is the whole number where it
/// is that other one, scaled by what makes it so.
pub proof fn lemma_scaled_fits(c: int, y: int, x: int, scale: int)
    requires
        1 <= c <= u32::MAX,
        ordinary(y),
        ordinary(x),
        x <= y,
        scale <= quotient(c * unit(), y),
        scale * (16 * VAST) >= unit(),
    ensures
        0 <= scaled(x, scale) <= c,
        x == y && scale == quotient(c * unit(), y) ==> scaled(x, scale) == c,
{
    let u = unit();
    let h = HIGH as int;
    let q = quotient(c * u, y);
    let p = product(x, scale);
    lemma_unit_is_vast();
    lemma_quotient_error(c, y);
    lemma_product_error(x, scale);
    assert(x > 0 && y > 0 && scale > 0) by (nonlinear_arith)
        requires
            x * VAST >= u,
            y * VAST >= u,
            scale * (16 * VAST) >= u,
            u > 0,
    ;
    assert(x * scale <= y * q) by (nonlinear_arith)
        requires
            0 < x <= y,
            0 < scale <= q,
    ;
    let t = x * scale;
    let v = y * q;
    assert(q * y == v) by (nonlinear_arith)
        requires
            v == y * q,
    ;
    // The upper bound.
    assert(p * u * h * h <= v * h * (h + 1)) by (nonlinear_arith)
        requires
            p * u * h <= t * (h + 1),
            t <= v,
            h > 0,
    ;
    assert(v * h * (h + 1) <= c * u * u * (h + 1) * (h + 1)) by (nonlinear_arith)
        requires
            v * h <= c * u * u * (h + 1),
            h > 0,
    ;
    assert(p * h * h <= c * u * (h + 1) * (h + 1)) by (nonlinear_arith)
        requires
            p * u * h * h <= c * u * u * (h + 1) * (h + 1),
            u > 0,
    ;
    lemma_close_above(p, c, u);
    if x == y && scale == q {
        assert(p * u * h * h >= v * h * (h - 1)) by (nonlinear_arith)
            requires
                p * u * h >= t * (h - 1),
                t == v,
                h > 0,
        ;
        assert(v * h * (h - 1) >= c * u * u * (h - 1) * (h - 1)) by (nonlinear_arith)
            requires
                v * h >= c * u * u * (h - 1),
                h > 1,
        ;
        assert(p * h * h >= c * u * (h - 1) * (h - 1)) by (nonlinear_arith)
            requires
                p * u * h * h >= c * u * u * (h - 1) * (h - 1),
                u > 0,
        ;
        lemma_close_below(p, c, u);
    }
}

/// A whole number scaled by no more than one does not grow.
pub proof fn lemma_scaled_does_not_grow(n: int, scale: int)
    requires
        1 <= n <= u32::MAX,
        scale <= unit(),
        scale * (16 * VAST) >= unit(),
    ensures
        0 <= scaled(n * unit(), scale) <= n,
{
    let u = unit();
    let h = HIGH as int;
    lemma_unit_is_vast();
    let p = product(n * u, scale);
    assert((n * u) * VAST >= u && n * u <= u * (8 * VAST)) by (nonlinear_arith)
        requires
            1 <= n <= u32::MAX,
            u > 0,
    ;
    lemma_product_error(n * u, scale);
    assert(p * u * h <= n * u * u * (h + 1)) by (nonlinear_arith)
        requires
            p * u * h <= (n * u) * scale * (h + 1),
            scale <= u,
            n >= 1,
            u > 0,
            h > 0,
    ;
    assert(p * h * h <= n * u * (h + 1) * (h + 1)) by (nonlinear_arith)
        requires
            p * u * h <= n * u * u * (h + 1),
            n >= 1,
            u > 0,
            h > 0,
    ;
    lemma_close_above(p, n, u);
}

/// A whole number scaled by one, or by what is next to it, stays as it is.
pub proof fn lemma_scaled_by_one(n: int, scale: int)
    requires
        1 <= n <= u32::MAX,
        scale <= unit(),
        scale * HIGH >= unit() * (HIGH - 1),
    ensures
        scaled(n * unit(), scale) == n,
{
    let u = unit();
    let h = HIGH as int;
    lemma_unit_is_vast();
    assert(scale * (16 * VAST) >= u) by (nonlinear_arith)
        requires
            scale * h >= u * (h - 1),
            h == 0x20_0000_0000_0000,
            u > 0,
    ;
    lemma_scaled_does_not_grow(n, scale);
    let p = product(n * u, scale);
    assert((n * u) * VAST >= u && n * u <= u * (8 * VAST)) by (nonlinear_arith)
        requires
            1 <= n <= u32::MAX,
            u > 0,
    ;
    lemma_product_error(n * u, scale);
    let v = n * u;
    assert(v >= 0) by (nonlinear_arith)
        requires
            n >= 1,
            u > 0,
            v == n * u,
    ;
    assert(p * u * h * h >= v * (scale * h) * (h - 1)) by (nonlinear_arith)
        requires
            p * u * h >= v * scale * (h - 1),
            h > 0,
    ;
    assert(v * (scale * h) * (h - 1) >= v * (u * (h - 1)) * (h - 1)) by (nonlinear_arith)
        requires
            scale * h >= u * (h - 1),
            v >= 0,
            h > 1,
    ;
    assert(p * h * h >= v * (h - 1) * (h - 1)) by (nonlinear_arith)
        requires
            p * u * h * h >= v * (u * (h - 1)) * (h - 1),
            u > 0,
    ;
    lemma_close_below(p, n, u);
}

/// The number nearest to a whole number is ordinary, and hardly off it.
pub proof fn lemma_whole_is_ordinary(n: int)
    requires
        1 <= n <= u64::MAX,
    ensures
        ordinary(whole(n)),
        whole(n) * HIGH >= n * unit() * (HIGH - 1),
        unit() > 0,
{
    let u = unit();
    let h = HIGH as int;
    lemma_unit_is_vast();
    assert(n * u >= 1 * LOW) by (nonlinear_arith)
        requires
            n >= 1,
            u >= VAST * VAST * VAST,
    ;
    lemma_nearest_error(n, 1);
    let w = whole(n);
    assert(w * 1 * h == w * h);
    assert(w * VAST >= u) by (nonlinear_arith)
        requires
            w * h >= n * u * (h - 1),
            n >= 1,
            h == 0x20_0000_0000_0000,
            u > 0,
    ;
    assert(w <= u * (8 * VAST)) by (nonlinear_arith)
        requires
            w * h <= n * u * (h + 1),
            n <= 0xffff_ffff_ffff_ffff,
            h == 0x20_0000_0000_0000,
            u > 0,
    ;
}

pub proof fn lemma_product_error(x: int, scale: int)
    requires
        ordinary(x),
        scale * (16 * VAST) >= unit(),
    ensures
        product(x, scale) * unit() * HIGH <= x * scale * (HIGH + 1),
        product(x, scale) * unit() * HIGH >= x * scale * (HIGH - 1),
        product(x, scale) >= 0,
{
    let u = unit();
    let h = HIGH as int;
    lemma_unit_is_vast();
    let t = x * scale;
    assert(x > 0 && scale > 0) by (nonlinear_arith)
        requires
            x * VAST >= u,
            scale * (16 * VAST) >= u,
            u > 0,
    ;
    assert(t * (16 * VAST * VAST) >= u * u) by (nonlinear_arith)
        requires
            x * VAST >= u,
            scale * (16 * VAST) >= u,
            t == x * scale,
            x > 0,
            scale > 0,
            u > 0,
    ;
    assert(t >= u * LOW) by (nonlinear_arith)
        requires
            t * (16 * VAST * VAST) >= u * u,
            u >= VAST * VAST * VAST,
            16 * LOW <= VAST,
            u > 0,
    ;
    assert(t * u >= (u * u) * LOW) by (nonlinear_arith)
        requires
            t >= u * LOW,
            u > 0,
    ;
    assert(u * u > 0 && t >= 0) by (nonlinear_arith)
        requires
            u > 0,
            t >= u * LOW,
    ;
    lemma_nearest_error(t, u * u);
    let p = product(x, scale);
    assert(p * u * h <= t * (h + 1)) by (nonlinear_arith)
        requires
            p * (u * u) * h <= t * u * (h + 1),
            u > 0,
    ;
    assert(p * u * h >= t * (h - 1)) by (nonlinear_arith)
        requires
            p * (u * u) * h >= t * u * (h - 1),
            u > 0,
    ;
}

proof fn lemma_close_above(p: int, c: int, u: int)
    requires
        0 <= p,
        1 <= c <= u32::MAX,
        u > 0,
        p * HIGH * HIGH <= c * u * (HIGH + 1) * (HIGH + 1),
    ensures
        0 <= rounded(p, u) <= c,
{
    let h = HIGH as int;
    let w = c * u;
    assert(w * (2 * h + 1) * 2 < u * h * h) by (nonlinear_arith)
        requires
            w == c * u,
            1 <= c <= u32::MAX,
            u > 0,
            h == 0x20_0000_0000_0000,
    ;
    assert(2 * p < 2 * w + u) by (nonlinear_arith)
        requires
            p * h * h <= w * (h + 1) * (h + 1),
            w * (2 * h + 1) * 2 < u * h * h,
            h > 0,
    ;
    let top = 2 * p + u;
    let bottom = 2 * u;
    lemma_fundamental_div_mod(top, bottom);
    lemma_mod_bound(top, bottom);
    let q = top / bottom;
    assert(q <= c) by (nonlinear_arith)
        requires
            bottom * q <= top,
            top < 2 * w + 2 * u,
            w == c * u,
            bottom == 2 * u,
            u > 0,
    ;
    assert(0 <= q) by (nonlinear_arith)
        requires
            top == bottom * q + top % bottom,
            top % bottom < bottom,
            top >= 0,
            bottom > 0,
    ;
}

proof fn lemma_close_below(p: int, c: int, u: int)
    requires
        0 <= p,
        1 <= c <= u32::MAX,
        u > 0,
        p * HIGH * HIGH >= c * u * (HIGH - 1) * (HIGH - 1),
    ensures
        rounded(p, u) >= c,
{
    let h = HIGH as int;
    let w = c * u;
    assert(w * (2 * h) * 2 < u * h * h) by (nonlinear_arith)
        requires
            w == c * u,
            1 <= c <= u32::MAX,
            u > 0,
            h == 0x20_0000_0000_0000,
    ;
    assert(w * (h - 1) * (h - 1) >= w * h * h - w * (2 * h)) by (nonlinear_arith)
        requires
            w >= 0,
    ;
    assert(2 * p >= 2 * w - u) by (nonlinear_arith)
        requires
            p * h * h >= w * h * h - w * (2 * h),
            w * (2 * h) * 2 < u * h * h,
            h > 0,
    ;
    let top = 2 * p + u;
    let bottom = 2 * u;
    lemma_fundamental_div_mod(top, bottom);
    lemma_mod_bound(top, bottom);
    let q = top / bottom;
    assert(q >= c) by (nonlinear_arith)
        requires
            top == bottom * q + top % bottom,
            top % bottom < bottom,
            top >= 2 * w,
            w == c * u,
            bottom == 2 * u,
            u > 0,
    ;
}

/// A time in seconds is hardly off it.
pub proof fn lemma_seconds_error(n: int)
    requires
        n >= 1,
    ensures
        seconds(n) * NANOS * HIGH * HIGH <= n * unit() * (HIGH + 1) * (HIGH + 1),
        seconds(n) * NANOS * HIGH * HIGH >= n * unit() * (HIGH - 1) * (HIGH - 1),
        seconds(n) * (4 * NANOS) >= unit(),
{
    let u = unit();
    let h = HIGH as int;
    let g = NANOS as int;
    lemma_unit_is_vast();
    let (c, r) = (n / g, n % g);
    lemma_fundamental_div_mod(n, g);
    lemma_mod_bound(n, g);
    assert(c >= 0) by (nonlinear_arith)
        requires
            n == g * c + r,
            n >= 1,
            r < g,
            g > 0,
    ;
    let a = whole(c);
    let b = quotient(whole(r), whole(g));
    assert(a * h <= c * u * (h + 1) && a * h >= c * u * (h - 1)) by {
        if c == 0 {
            lemma_nearest_zero(1);
            assert(c * u == 0) by (nonlinear_arith)
                requires
                    c == 0,
            ;
        } else {
            assert(c * u >= 1 * LOW) by (nonlinear_arith)
                requires
                    c >= 1,
                    u >= VAST * VAST * VAST,
            ;
            lemma_nearest_error(c, 1);
            assert(a * 1 * h == a * h);
        }
    }
    lemma_whole_is_exact(r);
    lemma_whole_is_exact(g);
    assert(g * u > 0) by (nonlinear_arith)
        requires
            g > 0,
            u > 0,
    ;
    assert(b * g * h <= r * u * (h + 1) && b * g * h >= r * u * (h - 1)) by {
        if r == 0 {
            assert(r * u == 0) by (nonlinear_arith)
                requires
                    r == 0,
            ;
            lemma_nearest_zero(g * u);
        } else {
            assert((r * u) * u >= (g * u) * LOW) by (nonlinear_arith)
                requires
                    r >= 1,
                    u >= VAST * VAST * VAST,
                    g == 1_000_000_000,
            ;
            assert(r * u >= 0) by (nonlinear_arith)
                requires
                    r >= 1,
                    u > 0,
            ;
            lemma_nearest_error(r * u, g * u);
            assert(b * g * h <= r * u * (h + 1)) by (nonlinear_arith)
                requires
                    b * (g * u) * h <= (r * u) * u * (h + 1),
                    u > 0,
            ;
            assert(b * g * h >= r * u * (h - 1)) by (nonlinear_arith)
                requires
                    b * (g * u) * h >= (r * u) * u * (h - 1),
                    u > 0,
            ;
        }
    }
    let t = a + b;
    let (x, y) = (c * u * (h + 1), r * u * (h + 1));
    let (v, w) = (c * u * (h - 1), r * u * (h - 1));
    assert(t * g * h == (a * h) * g + b * g * h) by (nonlinear_arith)
        requires
            t == a + b,
    ;
    assert(n * u * (h + 1) == x * g + y) by (nonlinear_arith)
        requires
            n == g * c + r,
            x == c * u * (h + 1),
            y == r * u * (h + 1),
    ;
    assert(n * u * (h - 1) == v * g + w) by (nonlinear_arith)
        requires
            n == g * c + r,
            v == c * u * (h - 1),
            w == r * u * (h - 1),
    ;
    assert((a * h) * g <= x * g) by (nonlinear_arith)
        requires
            a * h <= x,
            g > 0,
    ;
    assert((a * h) * g >= v * g) by (nonlinear_arith)
        requires
            a * h >= v,
            g > 0,
    ;
    assert(t * (2 * g) >= u) by (nonlinear_arith)
        requires
            t * g * h >= n * u * (h - 1),
            n >= 1,
            u > 0,
            h == 0x20_0000_0000_0000,
            g > 0,
    ;
    assert(t >= LOW) by (nonlinear_arith)
        requires
            t * (2 * g) >= u,
            u >= VAST * VAST * VAST,
            g == 1_000_000_000,
    ;
    assert(t * u >= u * LOW) by (nonlinear_arith)
        requires
            t >= LOW,
            u > 0,
    ;
    lemma_nearest_error(t, u);
    let s = seconds(n);
    assert(s == nearest(t, u));
    assert(s * h <= t * (h + 1)) by (nonlinear_arith)
        requires
            s * u * h <= t * u * (h + 1),
            u > 0,
    ;
    assert(s * h >= t * (h - 1)) by (nonlinear_arith)
        requires
            s * u * h >= t * u * (h - 1),
            u > 0,
    ;
    assert(s * g * h * h <= n * u * (h + 1) * (h + 1)) by {
        assert(s * g * h * h <= (t * g * h) * (h + 1)) by (nonlinear_arith)
            requires
                s * h <= t * (h + 1),
                g > 0,
                h > 0,
        ;
        assert((t * g * h) * (h + 1) <= n * u * (h + 1) * (h + 1)) by (nonlinear_arith)
            requires
                t * g * h <= n * u * (h + 1),
                h > 0,
        ;
    }
    assert(s * g * h * h >= n * u * (h - 1) * (h - 1)) by {
        assert(s * g * h * h >= (t * g * h) * (h - 1)) by (nonlinear_arith)
            requires
                s * h >= t * (h - 1),
                g > 0,
                h > 0,
        ;
        assert((t * g * h) * (h - 1) >= n * u * (h - 1) * (h - 1)) by (nonlinear_arith)
            requires
                t * g * h >= n * u * (h - 1),
                h > 1,
        ;
    }
    assert(s * (4 * g) >= u) by (nonlinear_arith)
        requires
            s * h >= t * (h - 1),
            t * (2 * g) >= u,
            t >= 0,
            h == 0x20_0000_0000_0000,
            g > 0,
            u > 0,
    ;
}

/// A tenth of a time is a tenth of it, but for five parts in 2^53 and half a nanosecond.
pub proof fn lemma_tenth_error(n: int)
    requires
        n >= 1,
    ensures
        ({
            let t = nanoseconds(product(seconds(n), quotient(whole(1), whole(10))));
            &&& (10 * t - n) * HIGH <= 5 * n + 5 * HIGH
            &&& (n - 10 * t) * HIGH <= 5 * n + 5 * HIGH
            &&& t >= 0
        }),
{
    let u = unit();
    let h = HIGH as int;
    let g = NANOS as int;
    lemma_unit_is_vast();
    lemma_seconds_error(n);
    lemma_whole_is_exact(1);
    lemma_whole_is_exact(10);
    let s = seconds(n);
    let q = quotient(1 * u, 10 * u);
    assert((1 * u) * u >= (10 * u) * LOW) by (nonlinear_arith)
        requires
            u >= VAST * VAST * VAST,
    ;
    lemma_nearest_error(1 * u, 10 * u);
    assert(q * 10 * h <= u * (h + 1)) by (nonlinear_arith)
        requires
            q * (10 * u) * h <= (1 * u) * u * (h + 1),
            u > 0,
    ;
    assert(q * 10 * h >= u * (h - 1)) by (nonlinear_arith)
        requires
            q * (10 * u) * h >= (1 * u) * u * (h - 1),
            u > 0,
    ;
    assert(q * 20 >= u) by (nonlinear_arith)
        requires
            q * 10 * h >= u * (h - 1),
            h == 0x20_0000_0000_0000,
            u > 0,
    ;
    let p = product(s, q);
    let w = s * q;
    assert(s > 0 && q > 0) by (nonlinear_arith)
        requires
            s * (4 * g) >= u,
            q * 20 >= u,
            u > 0,
            g > 0,
    ;
    assert(w * (80 * g) >= u * u) by (nonlinear_arith)
        requires
            w == s * q,
            s * (4 * g) >= u,
            q * 20 >= u,
            s > 0,
            q > 0,
            u > 0,
            g > 0,
    ;
    assert(w >= u * LOW) by (nonlinear_arith)
        requires
            w * (80 * g) >= u * u,
            u >= VAST * VAST * VAST,
            g == 1_000_000_000,
    ;
    assert(w * u >= (u * u) * LOW) by (nonlinear_arith)
        requires
            w >= u * LOW,
            u > 0,
    ;
    assert(u * u > 0) by (nonlinear_arith)
        requires
            u > 0,
    ;
    lemma_nearest_error(w, u * u);
    assert(p * u * h <= w * (h + 1)) by (nonlinear_arith)
        requires
            p * (u * u) * h <= w * u * (h + 1),
            u > 0,
    ;
    assert(p * u * h >= w * (h - 1)) by (nonlinear_arith)
        requires
            p * (u * u) * h >= w * u * (h - 1),
            u > 0,
    ;
    // Both factors at once.
    let x = s * g * h * h;
    let y = q * 10 * h;
    let k = h * h * h;
    assert(x * y == w * (10 * g) * k) by (nonlinear_arith)
        requires
            x == s * g * h * h,
            y == q * 10 * h,
            w == s * q,
            k == h * h * h,
    ;
    let up = (h + 1) * (h + 1) * (h + 1);
    let down = (h - 1) * (h - 1) * (h - 1);
    assert(x * y <= (n * u * (h + 1) * (h + 1)) * (u * (h + 1))) by (nonlinear_arith)
        requires
            0 <= x <= n * u * (h + 1) * (h + 1),
            0 <= y <= u * (h + 1),
    ;
    assert((n * u * (h + 1) * (h + 1)) * (u * (h + 1)) == (n * u) * u * up) by (nonlinear_arith)
        requires
            up == (h + 1) * (h + 1) * (h + 1),
    ;
    let low = n * u * (h - 1) * (h - 1);
    assert(low >= 0) by (nonlinear_arith)
        requires
            low == n * u * (h - 1) * (h - 1),
            n >= 1,
            u > 0,
            h > 1,
    ;
    assert(x * y >= low * (u * (h - 1))) by (nonlinear_arith)
        requires
            x >= low,
            low >= 0,
            y >= u * (h - 1),
            u > 0,
            h > 1,
    ;
    assert(low * (u * (h - 1)) == (n * u) * u * down) by (nonlinear_arith)
        requires
            low == n * u * (h - 1) * (h - 1),
            down == (h - 1) * (h - 1) * (h - 1),
    ;
    let e = (10 * g) * k;
    assert(e > 0) by (nonlinear_arith)
        requires
            e == (10 * g) * k,
            k == h * h * h,
            g > 0,
            h > 0,
    ;
    assert(w * (10 * g) * k == w * e) by (nonlinear_arith)
        requires
            e == (10 * g) * k,
    ;
    // p * u * h * e <= w * e * (h + 1) <= n * u * u * up * (h + 1)
    assert(p * u * h * e <= (w * e) * (h + 1)) by (nonlinear_arith)
        requires
            p * u * h <= w * (h + 1),
            e > 0,
    ;
    assert((w * e) * (h + 1) <= (n * u) * u * up * (h + 1)) by (nonlinear_arith)
        requires
            w * e <= (n * u) * u * up,
            h > 0,
    ;
    assert(p * u * h * e >= (w * e) * (h - 1)) by (nonlinear_arith)
        requires
            p * u * h >= w * (h - 1),
            e > 0,
    ;
    assert((w * e) * (h - 1) >= (n * u) * u * down * (h - 1)) by (nonlinear_arith)
        requires
            w * e >= (n * u) * u * down,
            h > 1,
    ;
    let up4 = up * (h + 1);
    let down4 = down * (h - 1);
    assert((n * u) * u * up * (h + 1) == (n * u * up4) * u) by (nonlinear_arith)
        requires
            up4 == up * (h + 1),
    ;
    assert((n * u) * u * down * (h - 1) == (n * u * down4) * u) by (nonlinear_arith)
        requires
            down4 == down * (h - 1),
    ;
    assert(p * h * e <= n * u * up4) by (nonlinear_arith)
        requires
            p * u * h * e <= (n * u * up4) * u,
            u > 0,
    ;
    assert(p * h * e >= n * u * down4) by (nonlinear_arith)
        requires
            p * u * h * e >= (n * u * down4) * u,
            u > 0,
    ;
    assert(up4 <= (h + 5) * k) by (nonlinear_arith)
        requires
            up4 == up * (h + 1),
            up == (h + 1) * (h + 1) * (h + 1),
            k == h * h * h,
            h == 0x20_0000_0000_0000,
    ;
    assert(down4 >= (h - 5) * k) by (nonlinear_arith)
        requires
            down4 == down * (h - 1),
            down == (h - 1) * (h - 1) * (h - 1),
            k == h * h * h,
            h == 0x20_0000_0000_0000,
    ;
    let v = n * u;
    assert(v > 0 && k > 0) by (nonlinear_arith)
        requires
            v == n * u,
            n >= 1,
            u > 0,
            k == h * h * h,
            h > 0,
    ;
    let m = p * (10 * g);
    assert(p * h * e == (m * h) * k) by (nonlinear_arith)
        requires
            e == (10 * g) * k,
            m == p * (10 * g),
    ;
    assert(v * up4 <= (v * (h + 5)) * k) by (nonlinear_arith)
        requires
            up4 <= (h + 5) * k,
            v > 0,
    ;
    assert(v * down4 >= (v * (h - 5)) * k) by (nonlinear_arith)
        requires
            down4 >= (h - 5) * k,
            v > 0,
    ;
    assert(m * h <= v * (h + 5)) by (nonlinear_arith)
        requires
            (m * h) * k <= (v * (h + 5)) * k,
            k > 0,
    ;
    assert(m * h >= v * (h - 5)) by (nonlinear_arith)
        requires
            (m * h) * k >= (v * (h - 5)) * k,
            k > 0,
    ;
    assert(p * g >= 0) by (nonlinear_arith)
        requires
            p >= 0,
            g > 0,
    ;
    lemma_half_even_error(p * g, u);
    let t = nanoseconds(p);
    assert(m == 10 * (p * g)) by (nonlinear_arith)
        requires
            m == p * (10 * g),
    ;
    assert((10 * t - n) * h <= 5 * n + 5 * h) by (nonlinear_arith)
        requires
            2 * (t * u - p * g) <= u,
            m == 10 * (p * g),
            m * h <= v * (h + 5),
            v == n * u,
            u > 0,
            h > 0,
    ;
    assert((n - 10 * t) * h <= 5 * n + 5 * h) by (nonlinear_arith)
        requires
            2 * (t * u - p * g) >= -u,
            m == 10 * (p * g),
            m * h >= v * (h - 5),
            v == n * u,
            u > 0,
            h > 0,
    ;
}

/// The number nearest to a fraction depends on what the fraction comes to alone.
pub proof fn lemma_nearest_of_ratio(n: int, d: int, a: int, b: int)
    requires
        n >= 0,
        d > 0,
        a >= 0,
        b > 0,
        n * b == a * d,
    ensures
        nearest(n, d) == nearest(a, b),
{
    reveal(nearest);
    let u = unit();
    lemma_power_positive(0);
    let (top, other) = (n * u, a * u);
    assert(top * b == other * d) by (nonlinear_arith)
        requires
            top == n * u,
            other == a * u,
            n * b == a * d,
    ;
    assert(top >= 0 && other >= 0) by (nonlinear_arith)
        requires
            top == n * u,
            other == a * u,
            n >= 0,
            a >= 0,
            u > 0,
    ;
    let units = top / d;
    vstd::arithmetic::div_mod::lemma_div_denominator(top * b, b, d);
    vstd::arithmetic::div_mod::lemma_div_denominator(other * d, d, b);
    vstd::arithmetic::div_mod::lemma_div_multiples_vanish(top, b);
    vstd::arithmetic::div_mod::lemma_div_multiples_vanish(other, d);
    assert(b * top == top * b && d * other == other * d && b * d == d * b) by (nonlinear_arith);
    assert(other / b == units);
    let step = step_at(units);
    lemma_step_positive(units);
    assert(d * step > 0 && b * step > 0 && top * (b * step) == other * (d * step))
        by (nonlinear_arith)
        requires
            d > 0,
            b > 0,
            step > 0,
            top * b == other * d,
    ;
    lemma_half_even_ratio(top, d * step, other, b * step);
}

} // verus!
