//! The arithmetic that relates a channel to a percentage and to a fraction.
//!
//! A channel is an integer from 0 to 255.  Percentages and fractions are
//! carried in thousandths, as integers: `73725` stands for 73.725 % and `502`
//! for the fraction 0.502.  Three decimal places are all that the notations
//! of this crate ever write.

use vstd::prelude::*;

verus! {

/// `a / b` rounded to the nearest integer, a half being rounded up.
pub open spec fn round_div(a: int, b: int) -> int
    recommends
        a >= 0,
        b > 0,
{
    (2 * a + b) / (2 * b)
}

/// `x`, or the nearer of `low` and `high` where `x` is not between them.
pub open spec fn clamp(x: int, low: int, high: int) -> int
    recommends
        low <= high,
{
    if x < low {
        low
    } else if x > high {
        high
    } else {
        x
    }
}

/// `num * 100 / 255` rounded to a whole percentage.
pub open spec fn percentage_rounded(num: u8) -> int {
    round_div(100 * num, 255)
}

/// `num * 100 / 255` rounded to three decimal places, in thousandths of a percent.
pub open spec fn percentage_milli(num: u8) -> int {
    round_div(100_000 * num, 255)
}

/// `num / 255` rounded to three decimal places, in thousandths.
pub open spec fn fraction_milli(num: u8) -> int {
    round_div(1000 * num, 255)
}

/// The channel for a percentage given in thousandths: the percentage is
/// clamped to 100, `percentage * 255 / 100` is rounded to three decimal
/// places, and that is rounded to an integer.
pub open spec fn percentage_milli_channel(milli: int) -> int {
    round_div(round_div(255 * clamp(milli, 0, 100_000), 100), 1000)
}

/// The channel for a fraction given in thousandths: the fraction is clamped
/// to 1 and `fraction * 255` is cut off at the decimal point.
pub open spec fn fraction_milli_channel(milli: int) -> int {
    255 * clamp(milli, 0, 1000) / 1000
}

/// The channel nearest to `255 * numerator / denominator`.
pub open spec fn fraction_channel_rounded(numerator: int, denominator: int) -> int
    recommends
        0 <= numerator <= denominator,
        denominator > 0,
{
    round_div(255 * numerator, denominator)
}

/// A channel is found again from its percentage of three decimal places.
pub proof fn law_percentage_round_trip(num: u8)
    ensures
        0 <= percentage_milli(num) <= 100_000,
        percentage_milli_channel(percentage_milli(num)) == num,
{
    let milli = percentage_milli(num);
    assert(milli == (200_000 * num + 255) / 510);
    assert(510 * milli <= 200_000 * num + 255 < 510 * milli + 510);
    let scaled = round_div(255 * milli, 100);
    assert(scaled == (510 * milli + 100) / 200);
    assert(200 * scaled <= 510 * milli + 100 < 200 * scaled + 200);
    assert(round_div(scaled, 1000) == (2 * scaled + 1000) / 2000);
}

/// A channel is found again from its fraction of three decimal places, if
/// what the fraction gives is rounded.
pub proof fn law_fraction_round_trip(num: u8)
    ensures
        0 <= fraction_milli(num) <= 1000,
        fraction_channel_rounded(fraction_milli(num), 1000) == num,
        fraction_milli(num) == 0 <==> num == 0,
        fraction_milli(num) == 1000 <==> num == 255,
{
    let milli = fraction_milli(num);
    assert(milli == (2000 * num + 255) / 510);
    assert(510 * milli <= 2000 * num + 255 < 510 * milli + 510);
    assert(fraction_channel_rounded(milli, 1000) == (510 * milli + 1000) / 2000);
}

/// Converts a channel to the nearest whole percentage of 255.
pub fn u8_to_percentage_rounded(num: u8) -> (percentage: u8)
    ensures
        percentage == percentage_rounded(num),
        percentage <= 100,
{
    ((200 * (num as u32) + 255) / 510) as u8
}

/// Converts a channel to its percentage of 255, rounded to three decimal
/// places and given in thousandths: 188 gives `73725`, that is 73.725 %.
pub fn u8_to_percentage_milli(num: u8) -> (milli: u32)
    ensures
        milli == percentage_milli(num),
        milli <= 100_000,
{
    (200_000 * (num as u32) + 255) / 510
}

/// Converts a channel to its fraction of 255, rounded to three decimal
/// places and given in thousandths: 128 gives `502`, that is 0.502.
pub fn u8_to_fraction_milli(num: u8) -> (milli: u32)
    ensures
        milli == fraction_milli(num),
        milli <= 1000,
{
    (2000 * (num as u32) + 255) / 510
}

/// Converts a percentage, given in thousandths, to the nearest channel.
/// A percentage above 100 counts as 100.
pub fn percentage_milli_to_u8(milli: u32) -> (num: u8)
    ensures
        num == percentage_milli_channel(milli as int),
{
    let clamped: u32 = if milli > 100_000 {
        100_000
    } else {
        milli
    };
    let scaled: u32 = (510 * clamped + 100) / 200;
    ((2 * scaled + 1000) / 2000) as u8
}

/// Converts a fraction, given in thousandths, to a channel, cutting off what
/// follows the decimal point.  A fraction above 1 counts as 1.
pub fn fraction_milli_to_u8(milli: u32) -> (num: u8)
    ensures
        num == fraction_milli_channel(milli as int),
{
    let clamped: u32 = if milli > 1000 {
        1000
    } else {
        milli
    };
    (255 * clamped / 1000) as u8
}

/// Converts a fraction, given in thousandths, to the nearest channel.
/// A fraction above 1 counts as 1.
pub fn fraction_milli_to_u8_rounded(milli: u32) -> (num: u8)
    ensures
        num == fraction_channel_rounded(clamp(milli as int, 0, 1000), 1000),
{
    let clamped: u32 = if milli > 1000 {
        1000
    } else {
        milli
    };
    ((510 * clamped + 1000) / 2000) as u8
}

} // verus!
