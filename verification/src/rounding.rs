//! Turning an exact weighted sum into a channel value: round the ratio to the
//! nearest integer, halves away from zero, then saturate into `0..=255`.

use vstd::prelude::*;

verus! {

/// The integer nearest to `num / den`, for a positive `den`. A ratio that lies
/// exactly between two integers goes to the one farther from zero.
pub open spec fn round_half_away(num: int, den: int) -> int
    recommends
        den > 0,
{
    if num >= 0 {
        (2 * num + den) / (2 * den)
    } else {
        -((den - 2 * num) / (2 * den))
    }
}

/// The channel value that stands for the ratio `num / den`: the ratio rounded
/// to the nearest integer, then held inside `0..=255`.
pub open spec fn quantize(num: int, den: int) -> u8
    recommends
        den > 0,
{
    let rounded = round_half_away(num, den);
    if rounded <= 0 {
        0u8
    } else if rounded >= 255 {
        255u8
    } else {
        rounded as u8
    }
}

/// A quotient times its divisor is within one divisor below the dividend.
proof fn lemma_quotient_bounds(a: int, b: int)
    requires
        b > 0,
    ensures
        b * (a / b) <= a < b * (a / b) + b,
{
    vstd::arithmetic::div_mod::lemma_fundamental_div_mod(a, b);
    vstd::arithmetic::div_mod::lemma_mod_bound(a, b);
}

/// Rounding moves a ratio by at most one half: the rounded value times the
/// divisor differs from the dividend by at most half the divisor.
pub proof fn lemma_round_is_nearest(num: int, den: int)
    requires
        den > 0,
    ensures
        -den <= 2 * (round_half_away(num, den) * den - num) <= den,
{
    let rounded = round_half_away(num, den);
    if num >= 0 {
        lemma_quotient_bounds(2 * num + den, 2 * den);
        assert((2 * den) * rounded == 2 * (rounded * den)) by (nonlinear_arith);
    } else {
        let away = (den - 2 * num) / (2 * den);
        lemma_quotient_bounds(den - 2 * num, 2 * den);
        assert((2 * den) * away == -2 * (rounded * den)) by (nonlinear_arith)
            requires
                rounded == -away,
        ;
    }
}

/// A ratio that is a whole number rounds to itself.
pub proof fn lemma_round_whole(whole: int, den: int)
    requires
        den > 0,
    ensures
        round_half_away(whole * den, den) == whole,
{
    if whole * den >= 0 {
        assert(2 * (whole * den) + den == whole * (2 * den) + den) by (nonlinear_arith);
        vstd::arithmetic::div_mod::lemma_fundamental_div_mod_converse(
            2 * (whole * den) + den,
            2 * den,
            whole,
            den,
        );
    } else {
        assert(den - 2 * (whole * den) == (-whole) * (2 * den) + den) by (nonlinear_arith);
        vstd::arithmetic::div_mod::lemma_fundamental_div_mod_converse(
            den - 2 * (whole * den),
            2 * den,
            -whole,
            den,
        );
    }
}

/// Rounding keeps the sign of the ratio and its order against 255.
pub proof fn lemma_round_range(num: int, den: int)
    requires
        den > 0,
    ensures
        num <= 0 ==> round_half_away(num, den) <= 0,
        num >= 0 ==> round_half_away(num, den) >= 0,
        num >= 255 * den ==> round_half_away(num, den) >= 255,
        num <= 255 * den ==> round_half_away(num, den) <= 255,
{
    let rounded = round_half_away(num, den);
    lemma_round_is_nearest(num, den);
    if num <= 0 && rounded > 0 {
        assert(rounded * den >= den) by (nonlinear_arith)
            requires
                rounded >= 1,
                den > 0,
        ;
    }
    if num >= 0 && rounded < 0 {
        assert(rounded * den <= -den) by (nonlinear_arith)
            requires
                rounded <= -1,
                den > 0,
        ;
    }
    if num >= 255 * den && rounded < 255 {
        assert(rounded * den <= 254 * den) by (nonlinear_arith)
            requires
                rounded <= 254,
                den > 0,
        ;
    }
    if num <= 255 * den && rounded > 255 {
        assert(rounded * den >= 256 * den) by (nonlinear_arith)
            requires
                rounded >= 256,
                den > 0,
        ;
    }
}

/// Saturation: a ratio of 255 or more becomes 255 and a ratio of zero or less
/// becomes 0, whatever its size; nothing wraps around.
pub proof fn lemma_quantize_saturates(num: int, den: int)
    requires
        den > 0,
    ensures
        num >= 255 * den ==> quantize(num, den) == 255,
        num <= 0 ==> quantize(num, den) == 0,
{
    lemma_round_range(num, den);
}

/// A whole ratio inside `0..=255` is its own channel value.
pub proof fn lemma_quantize_whole(level: u8, den: int)
    requires
        den > 0,
    ensures
        quantize(level * den, den) == level,
{
    lemma_round_whole(level as int, den);
}

/// Rounds the ratio `sum / divisor` to the nearest channel value, saturating
/// at 0 and at 255.
pub fn quantize_sum(sum: i128, divisor: u64) -> (level: u8)
    requires
        divisor > 0,
    ensures
        level == quantize(sum as int, divisor as int),
{
    proof {
        lemma_round_range(sum as int, divisor as int);
    }
    if sum <= 0 {
        0
    } else {
        let den: u128 = divisor as u128;
        let num: u128 = sum as u128;
        if num >= 255 * den {
            255
        } else {
            let rounded: u128 = (2 * num + den) / (2 * den);
            rounded as u8
        }
    }
}

} // verus!
