//! The ratio of two integers as double-precision division gives it.
//!
//! Each integer is rounded to a double, and so is their quotient. A double
//! that is not negative is held as its bits, whose order is the order of the
//! numbers.

use crate::rounding::{
    is_rounded_quotient, lemma_exact_value_is_kept, lemma_magnitude_increases,
    lemma_magnitude_of_binade, lemma_nearest_exists, lemma_nearest_is_monotone,
    lemma_nearest_is_unique, lemma_rounded_bound,
    lemma_rounded_in_binade_is_nearest, lemma_rounded_quotient_scales, lemma_rounds_beyond,
    magnitude, nearest, power_of_two, round_half_even,
};
use vstd::arithmetic::power2::{
    lemma2_to64, lemma2_to64_rest, lemma_pow2_adds, lemma_pow2_pos, lemma_pow2_strictly_increases,
    lemma_pow2_unfold, pow2,
};
use vstd::prelude::*;

verus! {

/// The bits of positive infinity.
pub const DOUBLE_INFINITY: u64 = 0x7FF0_0000_0000_0000;

/// The double that an integer converts to. One is `2^1074` of the smallest
/// subnormals.
pub open spec fn double_of(n: nat) -> nat {
    nearest(52, DOUBLE_INFINITY as nat, 1, n * pow2(1074))
}

/// The double that the quotient of two doubles rounds to, where the divisor
/// is not zero.
pub open spec fn double_quotient(dividend: nat, divisor: nat) -> nat {
    nearest(
        52,
        DOUBLE_INFINITY as nat,
        magnitude(52, divisor),
        magnitude(52, dividend) * pow2(1074),
    )
}

/// The ratio of two integers, as a double.
pub open spec fn double_ratio(dividend: nat, divisor: nat) -> nat {
    double_quotient(double_of(dividend), double_of(divisor))
}

proof fn lemma_powers()
    ensures
        pow2(0) == 1,
        pow2(52) == 0x10_0000_0000_0000,
        pow2(53) == 0x20_0000_0000_0000,
        pow2(54) == 0x40_0000_0000_0000,
        pow2(56) == 0x100_0000_0000_0000,
        pow2(58) == 0x400_0000_0000_0000,
        pow2(64) == 0x1_0000_0000_0000_0000,
        DOUBLE_INFINITY == 2047 * pow2(52),
{
    lemma2_to64();
    lemma2_to64_rest();
}

/// A significand of 53 bits and a power of two make a number that has a
/// double of its own.
proof fn lemma_exact_double(n: nat, significand: nat, place: nat)
    requires
        place < 2045,
        pow2(52) <= significand < 2 * pow2(52),
        n * pow2(1074) == significand * pow2(place),
    ensures
        magnitude(52, double_of(n)) == n * pow2(1074),
{
    lemma_powers();
    let pattern = (place * pow2(52) + significand) as nat;
    lemma_magnitude_of_binade(52, place + 1, significand);
    lemma_nearest_exists(52, DOUBLE_INFINITY as nat, 1, n * pow2(1074));
    lemma_exact_value_is_kept(
        52,
        DOUBLE_INFINITY as nat,
        1,
        pattern,
        n * pow2(1074),
        double_of(n),
    );
}

/// A number below `2^53` has a double of its own: doubled often enough, it
/// fills a significand.
proof fn lemma_small_is_exact(n: nat, scaled: nat, place: nat)
    requires
        0 < scaled < 2 * pow2(52),
        place <= 1074,
        scaled >= pow2((1074 - place) as nat),
        n * pow2(1074) == scaled * pow2(place),
    ensures
        magnitude(52, double_of(n)) == n * pow2(1074),
    decreases 2 * pow2(52) - scaled,
{
    if scaled >= pow2(52) {
        lemma_exact_double(n, scaled, place);
    } else {
        if 1074 - place > 52 {
            lemma_pow2_strictly_increases(52, (1074 - place) as nat);
        }
        lemma_pow2_unfold(place);
        lemma_pow2_unfold((1075 - place) as nat);
        assert(scaled * pow2(place) == (2 * scaled) * pow2((place - 1) as nat)) by (nonlinear_arith)
            requires
                pow2(place) == 2 * pow2((place - 1) as nat),
        ;
        lemma_small_is_exact(n, 2 * scaled, (place - 1) as nat);
    }
}

/// A number of more than 53 bits is rounded to 53 of them.
proof fn lemma_large_is_rounded(n: nat, shift: nat, rounded: nat)
    requires
        1 <= shift <= 11,
        pow2(52) * pow2(shift) <= n < 2 * pow2(52) * pow2(shift),
        is_rounded_quotient(n, pow2(shift), rounded),
    ensures
        rounded <= 2 * pow2(52),
        magnitude(52, double_of(n)) == rounded * pow2(shift) * pow2(1074),
{
    lemma_powers();
    let one = pow2(1074);
    let value = n * one;
    let place = 1074 + shift;
    let top = DOUBLE_INFINITY as nat;
    lemma_pow2_pos(1074);
    lemma_pow2_pos(shift);
    lemma_pow2_unfold(shift);
    lemma_pow2_pos((shift - 1) as nat);
    lemma_pow2_adds(shift, 1074);
    lemma_rounded_bound(n, pow2(shift), rounded, 2 * pow2(52));
    lemma_rounded_quotient_scales(n, pow2(shift), rounded, one);
    assert(1 * pow2(place) == pow2(shift) * one);
    assert(value >= pow2(52) * (1 * pow2(place))) by (nonlinear_arith)
        requires
            value == n * one,
            n >= pow2(52) * pow2(shift),
            1 * pow2(place) == pow2(shift) * one,
            one > 0,
    ;
    if rounded < pow2(52) {
        assert(n - rounded * pow2(shift) >= pow2(shift)) by (nonlinear_arith)
            requires
                n >= pow2(52) * pow2(shift),
                rounded + 1 <= pow2(52),
                pow2(shift) > 0,
        ;
    }
    lemma_rounded_in_binade_is_nearest(52, top, 1, value, place + 1, rounded);
    lemma_magnitude_of_binade(52, place + 1, rounded);
    lemma_nearest_exists(52, top, 1, value);
    lemma_nearest_is_unique(
        52,
        top,
        1,
        value,
        (place * pow2(52) + rounded) as nat,
        double_of(n),
    );
    assert(rounded * pow2(place) == rounded * pow2(shift) * one) by (nonlinear_arith)
        requires
            pow2(place) == pow2(shift) * one,
    ;
}

/// The integer that an integer is rounded to when it is made a double.
fn rounded_to_double(n: u64) -> (value: u128)
    ensures
        magnitude(52, double_of(n as nat)) == value * pow2(1074),
        value <= 0x1_0000_0000_0000_0000,
        n > 0 ==> value > 0,
{
    proof {
        lemma_powers();
    }
    if n < 0x20_0000_0000_0000 {
        proof {
            if n == 0 {
                assert(0 * pow2(1074) == 0) by (nonlinear_arith);
                assert(magnitude(52, 0) == 0);
                lemma_nearest_exists(52, DOUBLE_INFINITY as nat, 1, 0);
                lemma_exact_value_is_kept(52, DOUBLE_INFINITY as nat, 1, 0, 0, double_of(0));
            } else {
                lemma_small_is_exact(n as nat, n as nat, 1074);
            }
        }
        return n as u128;
    }
    let mut shift: u32 = 1;
    let mut limit: u128 = 0x40_0000_0000_0000;
    proof {
        lemma_pow2_unfold(1);
    }
    while n as u128 >= limit
        invariant
            1 <= shift <= 11,
            pow2(52) == 0x10_0000_0000_0000,
            limit == 2 * pow2(52) * pow2(shift as nat),
            n >= pow2(52) * pow2(shift as nat),
            shift == 11 ==> limit == 0x1_0000_0000_0000_0000,
            limit <= 0x1_0000_0000_0000_0000,
        decreases 11 - shift,
    {
        proof {
            lemma_pow2_unfold((shift + 1) as nat);
            lemma2_to64();
            assert(2 * pow2(52) * pow2((shift + 1) as nat) == 2 * (2 * pow2(52) * pow2(
                shift as nat,
            ))) by (nonlinear_arith)
                requires
                    pow2((shift + 1) as nat) == 2 * pow2(shift as nat),
            ;
            assert(pow2(52) * pow2((shift + 1) as nat) == 2 * pow2(52) * pow2(shift as nat))
                by (nonlinear_arith)
                requires
                    pow2((shift + 1) as nat) == 2 * pow2(shift as nat),
            ;
            if shift + 1 < 11 {
                lemma_pow2_strictly_increases((shift + 1) as nat, 11);
            }
            assert(2 * pow2(52) * pow2((shift + 1) as nat) <= 2 * pow2(52) * pow2(11))
                by (nonlinear_arith)
                requires
                    pow2((shift + 1) as nat) <= pow2(11),
            ;
        }
        limit = limit * 2;
        shift = shift + 1;
    }
    let rounded = round_half_even(n, shift);
    let step = power_of_two(shift);
    proof {
        lemma_large_is_rounded(n as nat, shift as nat, rounded as nat);
        assert(rounded * step <= 0x1_0000_0000_0000_0000) by (nonlinear_arith)
            requires
                rounded <= 2 * pow2(52),
                step == pow2(shift as nat),
                2 * pow2(52) * pow2(shift as nat) <= 0x1_0000_0000_0000_0000,
        ;
        if rounded == 0 {
            assert(0 * step == 0);
            assert(2 * n <= step) by (nonlinear_arith)
                requires
                    2 * crate::rounding::distance(n as nat, (0 * step) as nat) <= step,
                    0 * step == 0,
            ;
            assert(n >= pow2(52) * step);
            assert(false) by (nonlinear_arith)
                requires
                    n >= pow2(52) * step,
                    2 * n <= step,
                    pow2(52) == 0x10_0000_0000_0000,
                    step > 0,
            ;
        }
        assert(rounded * step > 0) by (nonlinear_arith)
            requires
                rounded > 0,
                step > 0,
        ;
    }
    rounded as u128 * step as u128
}

/// When the ratio of two rounded integers lies beyond a double, in integers.
proof fn lemma_ratio_beyond(
    dividend: nat,
    divisor: nat,
    a: nat,
    b: nat,
    pattern: nat,
    significand: nat,
    place: nat,
    scale: nat,
)
    requires
        magnitude(52, double_of(dividend)) == a * pow2(1074),
        magnitude(52, double_of(divisor)) == b * pow2(1074),
        b > 0,
        pow2(52) <= significand < 2 * pow2(52),
        significand % 2 == 0,
        pattern == place * pow2(52) + significand,
        place + scale == 1075,
    ensures
        double_ratio(dividend, divisor) > pattern <==> a * pow2(scale) > b * (2 * significand + 1),
{
    lemma_powers();
    let one = pow2(1074);
    let quantum = pow2(place);
    let top = DOUBLE_INFINITY as nat;
    lemma_pow2_pos(1074);
    lemma_pow2_pos(place);
    assert(b * one > 0) by (nonlinear_arith)
        requires
            b > 0,
            one > 0,
    ;
    assert(pattern % 2 == 0) by (nonlinear_arith)
        requires
            pattern == place * pow2(52) + significand,
            significand % 2 == 0,
            pow2(52) == 2 * 0x8_0000_0000_0000,
    ;
    assert(pattern + 1 == place * pow2(52) + (significand + 1));
    lemma_magnitude_of_binade(52, place + 1, significand);
    lemma_magnitude_of_binade(52, place + 1, significand + 1);
    assert(pattern < top) by (nonlinear_arith)
        requires
            pattern == place * pow2(52) + significand,
            significand < 2 * pow2(52),
            place <= 1075,
            top == 2047 * pow2(52),
            pow2(52) > 0,
    ;
    lemma_rounds_beyond(52, top, b * one, a * one * one, pattern);
    lemma_pow2_unfold(1075);
    lemma_pow2_adds(scale, place);
    let middle = significand * quantum + (significand + 1) * quantum;
    assert(middle == (2 * significand + 1) * quantum) by (nonlinear_arith)
        requires
            middle == significand * quantum + (significand + 1) * quantum,
    ;
    let left = a * pow2(scale);
    let right = b * (2 * significand + 1);
    let factor = quantum * one;
    assert(factor > 0) by (nonlinear_arith)
        requires
            factor == quantum * one,
            quantum > 0,
            one > 0,
    ;
    assert(2 * (a * one * one) == left * factor) by (nonlinear_arith)
        requires
            left == a * pow2(scale),
            factor == quantum * one,
            pow2(scale) * quantum == 2 * one,
    ;
    assert((b * one) * middle == right * factor) by (nonlinear_arith)
        requires
            right == b * (2 * significand + 1),
            factor == quantum * one,
            middle == (2 * significand + 1) * quantum,
    ;
    assert(left * factor > right * factor <==> left > right) by (nonlinear_arith)
        requires
            factor > 0,
    ;
}

/// The double of a positive integer is positive.
proof fn lemma_double_is_positive(n: nat)
    requires
        0 < n <= u64::MAX,
    ensures
        magnitude(52, double_of(n)) > 0,
{
    lemma_powers();
    let one = pow2(1074);
    let top = DOUBLE_INFINITY as nat;
    lemma_pow2_pos(1074);
    lemma_small_is_exact(1, 1, 1074);
    assert(1 * one <= n * one) by (nonlinear_arith)
        requires
            n >= 1,
    ;
    lemma_nearest_is_monotone(52, top, 1, 1 * one, n * one);
    if double_of(1) < double_of(n) {
        lemma_magnitude_increases(52, double_of(1), double_of(n));
    }
}

/// The ratio to a positive integer grows with the dividend.
pub proof fn lemma_ratio_is_monotone(lesser: nat, greater: nat, divisor: nat)
    requires
        lesser <= greater,
        0 < divisor <= u64::MAX,
    ensures
        double_ratio(lesser, divisor) <= double_ratio(greater, divisor),
{
    let one = pow2(1074);
    let top = DOUBLE_INFINITY as nat;
    lemma_double_is_positive(divisor);
    assert(lesser * one <= greater * one) by (nonlinear_arith)
        requires
            lesser <= greater,
    ;
    lemma_nearest_is_monotone(52, top, 1, lesser * one, greater * one);
    let (low, high) = (double_of(lesser), double_of(greater));
    if low < high {
        lemma_magnitude_increases(52, low, high);
    }
    assert(magnitude(52, low) * one <= magnitude(52, high) * one) by (nonlinear_arith)
        requires
            magnitude(52, low) <= magnitude(52, high),
    ;
    lemma_nearest_is_monotone(
        52,
        top,
        magnitude(52, double_of(divisor)),
        magnitude(52, low) * one,
        magnitude(52, high) * one,
    );
}

/// Whether the ratio of two integers, as a double, is beyond one half.
pub fn ratio_beyond_half(dividend: u64, divisor: u64) -> (beyond: bool)
    requires
        divisor > 0,
    ensures
        beyond == (double_ratio(dividend as nat, divisor as nat) > 0x3FE0_0000_0000_0000),
{
    let a = rounded_to_double(dividend);
    let b = rounded_to_double(divisor);
    proof {
        lemma_powers();
        lemma_ratio_beyond(
            dividend as nat,
            divisor as nat,
            a as nat,
            b as nat,
            0x3FE0_0000_0000_0000,
            0x10_0000_0000_0000,
            1021,
            54,
        );
    }
    a * 0x40_0000_0000_0000 > b * 0x20_0000_0000_0001
}

/// Whether the ratio of two integers, as a double, is beyond the double
/// nearest to one fifth.
pub fn ratio_beyond_fifth(dividend: u64, divisor: u64) -> (beyond: bool)
    requires
        divisor > 0,
    ensures
        beyond == (double_ratio(dividend as nat, divisor as nat) > 0x3FC9_9999_9999_999A),
{
    let a = rounded_to_double(dividend);
    let b = rounded_to_double(divisor);
    proof {
        lemma_powers();
        lemma_ratio_beyond(
            dividend as nat,
            divisor as nat,
            a as nat,
            b as nat,
            0x3FC9_9999_9999_999A,
            0x19_9999_9999_999A,
            1019,
            56,
        );
    }
    a * 0x100_0000_0000_0000 > b * 0x33_3333_3333_3335
}

/// Whether the ratio of two integers, as a double, is beyond the double
/// nearest to one twentieth.
pub fn ratio_beyond_twentieth(dividend: u64, divisor: u64) -> (beyond: bool)
    requires
        divisor > 0,
    ensures
        beyond == (double_ratio(dividend as nat, divisor as nat) > 0x3FA9_9999_9999_999A),
{
    let a = rounded_to_double(dividend);
    let b = rounded_to_double(divisor);
    proof {
        lemma_powers();
        lemma_ratio_beyond(
            dividend as nat,
            divisor as nat,
            a as nat,
            b as nat,
            0x3FA9_9999_9999_999A,
            0x19_9999_9999_999A,
            1017,
            58,
        );
    }
    a * 0x400_0000_0000_0000 > b * 0x33_3333_3333_3335
}

/// A number below `2^53` has a double of its own.
proof fn lemma_below_is_exact(n: nat)
    requires
        n < 0x20_0000_0000_0000,
    ensures
        magnitude(52, double_of(n)) == n * pow2(1074),
{
    lemma_powers();
    if n == 0 {
        assert(magnitude(52, 0) == 0);
        assert(0 * pow2(1074) == 0) by (nonlinear_arith);
        lemma_nearest_exists(52, DOUBLE_INFINITY as nat, 1, 0);
        lemma_exact_value_is_kept(52, DOUBLE_INFINITY as nat, 1, 0, 0, double_of(0));
    } else {
        lemma_small_is_exact(n, n, 1074);
    }
}

/// The ratio of two numbers below `2^52` lies beyond one half, one fifth and one
/// twentieth as a double exactly if it does.
pub proof fn law_ratios_compare_as_fractions(dividend: nat, divisor: nat)
    requires
        dividend < 0x10_0000_0000_0000,
        0 < divisor < 0x10_0000_0000_0000,
    ensures
        double_ratio(dividend, divisor) > 0x3FE0_0000_0000_0000 <==> 2 * dividend > divisor,
        double_ratio(dividend, divisor) > 0x3FC9_9999_9999_999A <==> 5 * dividend > divisor,
        double_ratio(dividend, divisor) > 0x3FA9_9999_9999_999A <==> 20 * dividend > divisor,
{
    lemma_powers();
    lemma_below_is_exact(dividend);
    lemma_below_is_exact(divisor);
    lemma_ratio_beyond(
        dividend,
        divisor,
        dividend,
        divisor,
        0x3FE0_0000_0000_0000,
        0x10_0000_0000_0000,
        1021,
        54,
    );
    lemma_ratio_beyond(
        dividend,
        divisor,
        dividend,
        divisor,
        0x3FC9_9999_9999_999A,
        0x19_9999_9999_999A,
        1019,
        56,
    );
    lemma_ratio_beyond(
        dividend,
        divisor,
        dividend,
        divisor,
        0x3FA9_9999_9999_999A,
        0x19_9999_9999_999A,
        1017,
        58,
    );
    let (a, b) = (dividend as int, divisor as int);
    assert(a * pow2(54) > b * (2 * 0x10_0000_0000_0000int + 1) <==> 2 * a > b) by (nonlinear_arith)
        requires
            pow2(54) == 0x40_0000_0000_0000,
            0 <= a,
            0 < b < 0x10_0000_0000_0000,
    ;
    assert(a * pow2(56) > b * (2 * 0x19_9999_9999_999Aint + 1) <==> 5 * a > b) by (nonlinear_arith)
        requires
            pow2(56) == 0x100_0000_0000_0000,
            0 <= a,
            0 < b < 0x10_0000_0000_0000,
    ;
    assert(a * pow2(58) > b * (2 * 0x19_9999_9999_999Aint + 1) <==> 20 * a > b) by (nonlinear_arith)
        requires
            pow2(58) == 0x400_0000_0000_0000,
            0 <= a,
            0 < b < 0x10_0000_0000_0000,
    ;
}

} // verus!
