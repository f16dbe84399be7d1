//! Seconds as decimal texts, as double-precision arithmetic gives them.
//!
//! A double holds 53 significant bits. A count of milliseconds or microseconds is rounded to
//! a double, divided by the number of units in a second and rounded again, and the quotient is
//! written with three or six decimals. All of it is computed on integers here.

use vstd::prelude::*;

use crate::text::{push_decimal, push_padded};

verus! {

/// Two to the power 52: the smallest integer with 53 significant bits.
pub const SMALLEST_SIGNIFICAND: u128 = 0x10_0000_0000_0000;

/// Two to the power 53: the first integer with more than 53 significant bits.
pub const SIGNIFICAND_END: u128 = 0x20_0000_0000_0000;

/// Milliseconds in a second.
pub const MILLIS_PER_SECOND: u128 = 1_000;

/// Microseconds in a second.
pub const MICROS_PER_SECOND: u128 = 1_000_000;

/// The integer nearest to `numerator / denominator`, the even one of two that are as near.
pub open spec fn nearest_integer(numerator: nat, denominator: nat) -> nat {
    let quotient = numerator / denominator;
    let twice = 2 * (numerator % denominator);
    if twice > denominator || (twice == denominator && quotient % 2 == 1) {
        quotient + 1
    } else {
        quotient
    }
}

/// How far `numerator / denominator` is from a quotient with 53 significant bits.
pub open spec fn distance(numerator: nat, denominator: nat) -> nat {
    if numerator < SMALLEST_SIGNIFICAND * denominator {
        (SMALLEST_SIGNIFICAND * denominator - numerator) as nat
    } else if numerator >= SIGNIFICAND_END * denominator {
        (numerator - SIGNIFICAND_END * denominator + 1) as nat
    } else {
        0
    }
}

/// The double nearest to `numerator / denominator`, as a numerator and a denominator.
pub open spec fn nearest_double(numerator: nat, denominator: nat) -> (nat, nat)
    decreases distance(numerator, denominator),
{
    if numerator == 0 || denominator == 0 {
        (0, 1)
    } else if numerator < SMALLEST_SIGNIFICAND * denominator {
        let scaled = nearest_double(2 * numerator, denominator);
        (scaled.0, 2 * scaled.1)
    } else if numerator >= SIGNIFICAND_END * denominator {
        let scaled = nearest_double(numerator, 2 * denominator);
        (2 * scaled.0, scaled.1)
    } else {
        (nearest_integer(numerator, denominator), 1)
    }
}

/// The double nearest to a 64-bit integer, which is an integer.
pub open spec fn double_of(number: nat) -> nat {
    if number < SIGNIFICAND_END {
        number
    } else {
        nearest_double(number, 1).0
    }
}

/// `number` units as a double number of seconds, of `scale` units each, and back to the
/// nearest whole number of units.
pub open spec fn units_shown(number: nat, scale: nat) -> nat {
    let seconds = nearest_double(double_of(number), scale);
    nearest_integer(seconds.0 * scale, seconds.1)
}

/// `units` units in seconds, of `scale` units each, with `digits` decimals.
pub open spec fn seconds_digits(units: nat, scale: nat, digits: nat) -> Seq<char> {
    crate::text::decimal(units / scale) + "."@ + crate::text::padded(units % scale, digits)
}

/// A number of milliseconds in seconds: without decimals where there is no need for them, and
/// with three otherwise.
pub open spec fn millis_text(milliseconds: nat) -> Seq<char> {
    if milliseconds % 1_000 == 0 {
        crate::text::decimal(milliseconds / 1_000)
    } else {
        seconds_digits(units_shown(milliseconds, 1_000), 1_000, 3)
    }
}

/// A number of microseconds in seconds with six decimals.
pub open spec fn micros_text(microseconds: nat) -> Seq<char> {
    seconds_digits(units_shown(microseconds, 1_000_000), 1_000_000, 6)
}

fn round_to_integer(numerator: u128, denominator: u128) -> (result: u128)
    requires
        0 < denominator,
        numerator < 0x8000_0000_0000_0000_0000_0000_0000_0000,
        denominator < 0x8000_0000_0000_0000_0000_0000_0000_0000,
    ensures
        result == nearest_integer(numerator as nat, denominator as nat),
        result * denominator <= numerator + denominator,
        result <= numerator / denominator + 1,
{
    let quotient: u128 = numerator / denominator;
    let twice: u128 = 2 * (numerator % denominator);
    assert(quotient * denominator <= numerator) by (nonlinear_arith)
        requires
            quotient == numerator / denominator,
            denominator > 0,
    ;
    assert((quotient + 1) * denominator == quotient * denominator + denominator)
        by (nonlinear_arith);
    assert(quotient <= numerator) by (nonlinear_arith)
        requires
            quotient == numerator / denominator,
            denominator > 0,
    ;
    if twice > denominator || (twice == denominator && quotient % 2 == 1) {
        quotient + 1
    } else {
        quotient
    }
}

/// The double nearest to `numerator / denominator`.
fn round_to_double(numerator: u128, denominator: u128) -> (result: (u128, u128))
    requires
        numerator <= 0x2_0000_0000_0000_0000,
        0 < denominator <= 1_000_000,
    ensures
        (result.0 as nat, result.1 as nat) == nearest_double(numerator as nat, denominator as nat),
        result.0 <= SIGNIFICAND_END || result.0 <= 2 * numerator,
        0 < result.1 < 0x1000_0000_0000_0000_0000_0000,
{
    if numerator == 0 {
        return (0, 1);
    }
    let mut scaled: u128 = numerator;
    let mut divisor: u128 = denominator;
    let mut up: u128 = 1;
    let mut down: u128 = 1;
    while scaled < SMALLEST_SIGNIFICAND * divisor
        invariant
            divisor == denominator,
            0 < denominator <= 1_000_000,
            0 < up <= scaled,
            up == 1 ==> scaled == numerator,
            up == 1 || scaled < SIGNIFICAND_END * divisor,
            up < 0x1000_0000_0000_0000_0000_0000,
            scaled <= 0x1000_0000_0000_0000_0000_0000,
            ({
                let rest = nearest_double(scaled as nat, divisor as nat);
                nearest_double(numerator as nat, denominator as nat) == (rest.0, up as nat * rest.1)
            }),
        decreases distance(scaled as nat, divisor as nat),
    {
        let ghost rest = nearest_double((2 * scaled) as nat, divisor as nat);
        assert(up as nat * (2 * rest.1) == (2 * up) as nat * rest.1) by (nonlinear_arith);
        scaled = 2 * scaled;
        up = 2 * up;
    }
    while scaled >= SIGNIFICAND_END * divisor
        invariant
            SMALLEST_SIGNIFICAND * divisor <= scaled,
            0 < divisor,
            0 < down <= divisor,
            up == 1 || scaled < SIGNIFICAND_END * divisor,
            up == 1 || down == 1,
            scaled <= 0x1000_0000_0000_0000_0000_0000,
            up == 1 ==> scaled == numerator,
            ({
                let rest = nearest_double(scaled as nat, divisor as nat);
                nearest_double(numerator as nat, denominator as nat) == (
                    down as nat * rest.0,
                    up as nat * rest.1,
                )
            }),
        decreases distance(scaled as nat, divisor as nat),
    {
        let ghost rest = nearest_double(scaled as nat, (2 * divisor) as nat);
        assert(down as nat * (2 * rest.0) == (2 * down) as nat * rest.0) by (nonlinear_arith);
        divisor = 2 * divisor;
        down = 2 * down;
    }
    let rounded = round_to_integer(scaled, divisor);
    assert(scaled / divisor < SIGNIFICAND_END) by (nonlinear_arith)
        requires
            scaled < SIGNIFICAND_END * divisor,
            divisor > 0,
    ;
    assert(down * rounded <= rounded * divisor) by (nonlinear_arith)
        requires
            down <= divisor,
    ;
    assert(nearest_double(scaled as nat, divisor as nat) == (rounded as nat, 1nat));
    (down * rounded, up)
}

/// The double nearest to a 64-bit integer.
fn round_number(number: u64) -> (result: u128)
    ensures
        result == double_of(number as nat),
        result <= 0x2_0000_0000_0000_0000,
{
    if (number as u128) < SIGNIFICAND_END {
        return number as u128;
    }
    let rounded = round_to_double(number as u128, 1);
    rounded.0
}

/// What is shown of a number of units in seconds of `scale` units each.
fn shown_units(number: u64, scale: u128) -> (result: u128)
    requires
        0 < scale <= 1_000_000,
    ensures
        result == units_shown(number as nat, scale as nat),
{
    let seconds = round_to_double(round_number(number), scale);
    assert(seconds.0 * scale <= 0x4_0000_0000_0000_0000 * 1_000_000) by (nonlinear_arith)
        requires
            seconds.0 <= 0x4_0000_0000_0000_0000,
            scale <= 1_000_000,
    ;
    round_to_integer(seconds.0 * scale, seconds.1)
}

/// A number of milliseconds in seconds.
pub fn seconds_string(milliseconds: u64) -> (result: String)
    ensures
        result@ == millis_text(milliseconds as nat),
{
    let mut text = String::new();
    if milliseconds % 1_000 == 0 {
        push_decimal(&mut text, (milliseconds / 1_000) as u128);
    } else {
        let units = shown_units(milliseconds, MILLIS_PER_SECOND);
        push_decimal(&mut text, units / MILLIS_PER_SECOND);
        text.append(".");
        push_padded(&mut text, units % MILLIS_PER_SECOND, 3);
    }
    text
}

/// Appends a number of microseconds in seconds.
pub fn push_micros(output: &mut String, microseconds: u64)
    ensures
        final(output)@ == old(output)@ + micros_text(microseconds as nat),
{
    let units = shown_units(microseconds, MICROS_PER_SECOND);
    push_decimal(output, units / MICROS_PER_SECOND);
    output.append(".");
    push_padded(output, units % MICROS_PER_SECOND, 6);
}

/// A fraction below two to the power 53 is scaled up to 53 significant bits and rounded there.
proof fn lemma_scaled_up(numerator: nat, denominator: nat)
    requires
        0 < numerator,
        0 < denominator,
        numerator < SIGNIFICAND_END * denominator,
    ensures
        ({
            let (rounded, scale) = nearest_double(numerator, denominator);
            &&& 0 < scale
            &&& SMALLEST_SIGNIFICAND * denominator <= numerator * scale
            &&& rounded == nearest_integer(numerator * scale, denominator)
        }),
    decreases distance(numerator, denominator),
{
    if numerator < SMALLEST_SIGNIFICAND * denominator {
        lemma_scaled_up(2 * numerator, denominator);
        let scale = nearest_double(2 * numerator, denominator).1;
        assert((2 * numerator) * scale == numerator * (2 * scale)) by (nonlinear_arith);
    }
}

/// A fraction that is rounded moves by half a unit at most.
pub(crate) proof fn lemma_rounding_error(numerator: nat, denominator: nat)
    requires
        0 < denominator,
    ensures
        -(denominator as int) <= 2 * (nearest_integer(numerator, denominator) * denominator
            - numerator) <= denominator,
{
    let quotient = numerator / denominator;
    assert(numerator == quotient * denominator + numerator % denominator && numerator % denominator
        < denominator) by (nonlinear_arith)
        requires
            quotient == numerator / denominator,
            denominator > 0,
    ;
    assert((quotient + 1) * denominator == quotient * denominator + denominator)
        by (nonlinear_arith);
}

/// A fraction less than half a unit away from `number` is rounded to it.
proof fn lemma_rounds_to(numerator: nat, denominator: nat, number: nat)
    requires
        0 < denominator,
        -(denominator as int) < 2 * (numerator - number * denominator) < denominator,
    ensures
        nearest_integer(numerator, denominator) == number,
{
    if numerator >= number * denominator {
        vstd::arithmetic::div_mod::lemma_fundamental_div_mod_converse(
            numerator as int,
            denominator as int,
            number as int,
            numerator - number * denominator,
        );
    } else {
        assert(number > 0) by (nonlinear_arith)
            requires
                numerator < number * denominator,
        ;
        assert((number - 1) * denominator == number * denominator - denominator)
            by (nonlinear_arith);
        vstd::arithmetic::div_mod::lemma_fundamental_div_mod_converse(
            numerator as int,
            denominator as int,
            number - 1,
            numerator - (number - 1) * denominator,
        );
    }
}

/// A count of units below two to the power 52 is shown as it is, whatever the number of units
/// in a second: no digit is lost to rounding.
pub proof fn small_counts_are_shown_exactly(number: nat, scale: nat)
    requires
        number < SMALLEST_SIGNIFICAND,
        0 < scale,
    ensures
        units_shown(number, scale) == number,
{
    if number > 0 {
        assert(number < SIGNIFICAND_END * scale) by (nonlinear_arith)
            requires
                number < SIGNIFICAND_END,
                0 < scale,
        ;
        lemma_scaled_up(number, scale);
        let (rounded, up) = nearest_double(number, scale);
        lemma_rounding_error(number * up, scale);
        assert(scale < up) by (nonlinear_arith)
            requires
                SMALLEST_SIGNIFICAND * scale <= number * up,
                0 < number < SMALLEST_SIGNIFICAND,
                0 < scale,
        ;
        lemma_rounds_to(rounded * scale, up, number);
    } else {
        assert(nearest_double(0, scale) == (0nat, 1nat));
        assert(0nat * scale == 0);
    }
}

} // verus!
