//! Binary floating-point magnitudes as integers, and rounding between
//! formats to nearest with ties to even.
//!
//! A format is given by the number of its stored mantissa bits. The
//! magnitude of a bit pattern (sign bit left out) is counted in units of the
//! format's smallest subnormal, so that every magnitude is a natural number.
//! The pattern of infinity counts as the power of two that follows the
//! largest finite magnitude: rounding to it is overflow.

use vstd::arithmetic::power2::{
    lemma_pow2_adds, lemma_pow2_pos, lemma_pow2_strictly_increases, lemma_pow2_unfold, pow2,
};
use vstd::prelude::*;

verus! {

/// The magnitude of a sign-free bit pattern with `mantissa_bits` stored
/// mantissa bits, in units of the smallest subnormal.
pub open spec fn magnitude(mantissa_bits: nat, bits: nat) -> nat {
    let exponent = bits / pow2(mantissa_bits);
    let mantissa = bits % pow2(mantissa_bits);
    if exponent == 0 {
        mantissa
    } else {
        (pow2(mantissa_bits) + mantissa) * pow2((exponent - 1) as nat)
    }
}

/// How far apart two numbers are.
pub open spec fn distance(a: nat, b: nat) -> nat {
    if a <= b {
        (b - a) as nat
    } else {
        (a - b) as nat
    }
}

/// Whether `result` is `value / step`, rounded to the nearest integer with
/// ties to even.
pub open spec fn is_rounded_quotient(value: nat, step: nat, result: nat) -> bool {
    &&& 2 * distance(value, result * step) <= step
    &&& 2 * distance(value, result * step) == step ==> result % 2 == 0
}

/// Whether `result` is the pattern, of all patterns up to `top`, whose
/// magnitude is nearest to `value`, the even one of two equally near. `unit`
/// is the size of one unit of the format, in the unit of `value`.
pub open spec fn is_nearest_even(
    mantissa_bits: nat,
    top: nat,
    unit: nat,
    value: nat,
    result: nat,
) -> bool {
    &&& result <= top
    &&& forall|other: nat|
        other <= top && other != result ==> {
            let kept = distance(value, magnitude(mantissa_bits, result) * unit);
            let given = distance(value, #[trigger] magnitude(mantissa_bits, other) * unit);
            kept < given || (kept == given && result % 2 == 0)
        }
}

/// The magnitude of the pattern made of a binade and a scaled significand,
/// carry into the next binade included.
pub proof fn lemma_magnitude_of_binade(mantissa_bits: nat, exponent: nat, significand: nat)
    requires
        exponent >= 1,
        significand <= 2 * pow2(mantissa_bits),
        exponent == 1 || significand >= pow2(mantissa_bits),
    ensures
        magnitude(mantissa_bits, ((exponent - 1) * pow2(mantissa_bits) + significand) as nat)
            == significand * pow2((exponent - 1) as nat),
{
    let base = pow2(mantissa_bits);
    lemma_pow2_pos(mantissa_bits);
    let bits = ((exponent - 1) * base + significand) as nat;
    assert((exponent - 1) * base >= 0) by (nonlinear_arith)
        requires
            exponent >= 1,
            base > 0,
    ;
    if significand < base {
        assert(exponent == 1);
        assert((exponent - 1) * base == 0) by (nonlinear_arith)
            requires
                exponent == 1,
        ;
        vstd::arithmetic::div_mod::lemma_basic_div(bits as int, base as int);
        vstd::arithmetic::div_mod::lemma_small_mod(bits, base);
        vstd::arithmetic::power2::lemma2_to64();
        assert(significand * pow2(0) == significand);
    } else if significand < 2 * base {
        let rest = (significand - base) as nat;
        assert(bits == exponent * base + rest) by (nonlinear_arith)
            requires
                bits == (exponent - 1) * base + significand,
                rest == significand - base,
        ;
        vstd::arithmetic::div_mod::lemma_fundamental_div_mod_converse(
            bits as int,
            base as int,
            exponent as int,
            rest as int,
        );
    } else {
        assert(bits == (exponent + 1) * base) by (nonlinear_arith)
            requires
                bits == (exponent - 1) * base + significand,
                significand == 2 * base,
        ;
        vstd::arithmetic::div_mod::lemma_fundamental_div_mod_converse(
            bits as int,
            base as int,
            (exponent + 1) as int,
            0,
        );
        lemma_pow2_unfold(exponent);
        assert(base * pow2(exponent) == significand * pow2((exponent - 1) as nat))
            by (nonlinear_arith)
            requires
                significand == 2 * base,
                pow2(exponent) == 2 * pow2((exponent - 1) as nat),
        ;
    }
}

/// Neighbouring patterns are one quantum of the lower pattern's binade apart.
proof fn lemma_magnitude_step(mantissa_bits: nat, bits: nat)
    ensures
        magnitude(mantissa_bits, bits + 1) == magnitude(mantissa_bits, bits) + pow2(
            (if bits < pow2(mantissa_bits) {
                0
            } else {
                bits / pow2(mantissa_bits) - 1
            }) as nat,
        ),
{
    let base = pow2(mantissa_bits);
    lemma_pow2_pos(mantissa_bits);
    let quotient = bits / base;
    let rest = bits % base;
    vstd::arithmetic::div_mod::lemma_fundamental_div_mod(bits as int, base as int);
    vstd::arithmetic::div_mod::lemma_mod_bound(bits as int, base as int);
    assert(base * quotient == quotient * base) by (nonlinear_arith);
    let exponent: nat = if quotient == 0 {
        1
    } else {
        quotient
    };
    let significand: nat = if quotient == 0 {
        rest
    } else {
        base + rest
    };
    assert(bits == (exponent - 1) * base + significand) by (nonlinear_arith)
        requires
            bits == quotient * base + rest,
            quotient == 0 ==> exponent == 1 && significand == rest,
            quotient != 0 ==> exponent == quotient && significand == base + rest,
    ;
    lemma_magnitude_of_binade(mantissa_bits, exponent, significand);
    lemma_magnitude_of_binade(mantissa_bits, exponent, significand + 1);
    assert(bits + 1 == (exponent - 1) * base + (significand + 1));
    assert((significand + 1) * pow2((exponent - 1) as nat) == significand * pow2(
        (exponent - 1) as nat,
    ) + pow2((exponent - 1) as nat)) by (nonlinear_arith);
    if bits < base {
        vstd::arithmetic::div_mod::lemma_basic_div(bits as int, base as int);
    } else {
        assert(quotient >= 1) by (nonlinear_arith)
            requires
                bits == quotient * base + rest,
                rest < base,
                bits >= base,
                quotient >= 0,
                base > 0,
        ;
    }
}

/// A larger pattern has a larger magnitude.
pub proof fn lemma_magnitude_increases(mantissa_bits: nat, lower: nat, upper: nat)
    requires
        lower < upper,
    ensures
        magnitude(mantissa_bits, lower) < magnitude(mantissa_bits, upper),
    decreases upper - lower,
{
    let before = (upper - 1) as nat;
    if lower < before {
        lemma_magnitude_increases(mantissa_bits, lower, before);
    }
    lemma_magnitude_step(mantissa_bits, before);
    lemma_pow2_pos(
        (if before < pow2(mantissa_bits) {
            0
        } else {
            before / pow2(mantissa_bits) - 1
        }) as nat,
    );
}

/// Patterns with the same magnitude are the same.
pub proof fn lemma_magnitude_injective(mantissa_bits: nat, a: nat, b: nat)
    requires
        magnitude(mantissa_bits, a) == magnitude(mantissa_bits, b),
    ensures
        a == b,
{
    if a < b {
        lemma_magnitude_increases(mantissa_bits, a, b);
    } else if b < a {
        lemma_magnitude_increases(mantissa_bits, b, a);
    }
}

/// A value that lies on a pattern rounds to that pattern.
pub proof fn lemma_exact_value_is_kept(
    mantissa_bits: nat,
    top: nat,
    unit: nat,
    exact: nat,
    value: nat,
    result: nat,
)
    requires
        unit > 0,
        exact <= top,
        value == magnitude(mantissa_bits, exact) * unit,
        is_nearest_even(mantissa_bits, top, unit, value, result),
    ensures
        result == exact,
{
    if result != exact {
        assert(distance(value, magnitude(mantissa_bits, exact) * unit) == 0);
        assert(magnitude(mantissa_bits, result) * unit == magnitude(mantissa_bits, exact) * unit);
        assert(magnitude(mantissa_bits, result) == magnitude(mantissa_bits, exact))
            by (nonlinear_arith)
            requires
                unit > 0,
                magnitude(mantissa_bits, result) * unit == magnitude(mantissa_bits, exact) * unit,
        ;
        lemma_magnitude_injective(mantissa_bits, result, exact);
    }
}

/// At most one pattern is the nearest even one.
pub proof fn lemma_nearest_is_unique(
    mantissa_bits: nat,
    top: nat,
    unit: nat,
    value: nat,
    a: nat,
    b: nat,
)
    requires
        unit > 0,
        is_nearest_even(mantissa_bits, top, unit, value, a),
        is_nearest_even(mantissa_bits, top, unit, value, b),
    ensures
        a == b,
{
    if a != b {
        let lower = if a < b {
            a
        } else {
            b
        };
        let upper = if a < b {
            b
        } else {
            a
        };
        let at_a = magnitude(mantissa_bits, a) * unit;
        let at_b = magnitude(mantissa_bits, b) * unit;
        assert(distance(value, at_a) == distance(value, at_b));
        // both are even, so a pattern lies strictly between them
        let between = lower + 1;
        lemma_magnitude_increases(mantissa_bits, lower, between);
        lemma_magnitude_increases(mantissa_bits, between, upper);
        let at_lower = magnitude(mantissa_bits, lower) * unit;
        let at_between = magnitude(mantissa_bits, between) * unit;
        let at_upper = magnitude(mantissa_bits, upper) * unit;
        lemma_scaled_less(
            magnitude(mantissa_bits, lower),
            magnitude(mantissa_bits, between),
            unit,
        );
        lemma_scaled_less(
            magnitude(mantissa_bits, between),
            magnitude(mantissa_bits, upper),
            unit,
        );
    }
}

proof fn lemma_scaled_less(a: nat, b: nat, unit: nat)
    by (nonlinear_arith)
    requires
        a < b,
        unit > 0,
    ensures
        a * unit < b * unit,
        a * unit + unit <= b * unit,
{
}

/// A significand rounded within its binade is the nearest pattern overall.
pub proof fn lemma_rounded_in_binade_is_nearest(
    mantissa_bits: nat,
    top: nat,
    unit: nat,
    value: nat,
    exponent: nat,
    significand: nat,
)
    requires
        mantissa_bits >= 1,
        unit > 0,
        exponent >= 1,
        significand <= 2 * pow2(mantissa_bits),
        exponent == 1 || value >= pow2(mantissa_bits) * (unit * pow2((exponent - 1) as nat)),
        is_rounded_quotient(value, unit * pow2((exponent - 1) as nat), significand),
        (exponent - 1) * pow2(mantissa_bits) + significand <= top,
    ensures
        is_nearest_even(
            mantissa_bits,
            top,
            unit,
            value,
            ((exponent - 1) * pow2(mantissa_bits) + significand) as nat,
        ),
{
    let base = pow2(mantissa_bits);
    let quantum = pow2((exponent - 1) as nat);
    let step = unit * quantum;
    lemma_pow2_pos(mantissa_bits);
    lemma_pow2_pos((exponent - 1) as nat);
    assert(step > 0) by (nonlinear_arith)
        requires
            step == unit * quantum,
            unit > 0,
            quantum > 0,
    ;
    assert((exponent - 1) * base >= 0) by (nonlinear_arith)
        requires
            exponent >= 1,
            base > 0,
    ;
    if exponent > 1 && significand < base {
        assert(value - significand * step >= step) by (nonlinear_arith)
            requires
                value >= base * step,
                significand + 1 <= base,
                step > 0,
        ;
        assert(false);
    }
    let result = ((exponent - 1) * base + significand) as nat;
    lemma_magnitude_of_binade(mantissa_bits, exponent, significand);
    assert(magnitude(mantissa_bits, result) * unit == significand * step) by (nonlinear_arith)
        requires
            magnitude(mantissa_bits, result) == significand * quantum,
            step == unit * quantum,
    ;
    assert(result % 2 == significand % 2) by {
        lemma_pow2_unfold(mantissa_bits);
        let half = pow2((mantissa_bits - 1) as nat);
        assert((exponent - 1) * base == 2 * ((exponent - 1) * half)) by (nonlinear_arith)
            requires
                base == 2 * half,
        ;
    }
    assert forall|other: nat| other <= top && other != result implies {
        let kept = distance(value, magnitude(mantissa_bits, result) * unit);
        let given = distance(value, #[trigger] magnitude(mantissa_bits, other) * unit);
        kept < given || (kept == given && result % 2 == 0)
    } by {
        if other < result {
            lemma_magnitude_increases(mantissa_bits, other, result);
            lemma_scaled_less(
                magnitude(mantissa_bits, other),
                magnitude(mantissa_bits, result),
                unit,
            );
            if value < significand * step {
                // the pattern below lies in the same binade
                assert(significand >= 1) by (nonlinear_arith)
                    requires
                        value < significand * step,
                        value >= 0,
                        step > 0,
                ;
                if exponent > 1 {
                    assert(significand > base) by (nonlinear_arith)
                        requires
                            value < significand * step,
                            value >= base * step,
                            step > 0,
                    ;
                }
                let below = (result - 1) as nat;
                lemma_magnitude_of_binade(mantissa_bits, exponent, (significand - 1) as nat);
                assert(magnitude(mantissa_bits, below) * unit == significand * step - step)
                    by (nonlinear_arith)
                    requires
                        magnitude(mantissa_bits, below) == (significand - 1) * quantum,
                        step == unit * quantum,
                ;
                if other < below {
                    lemma_magnitude_increases(mantissa_bits, other, below);
                    lemma_scaled_less(
                        magnitude(mantissa_bits, other),
                        magnitude(mantissa_bits, below),
                        unit,
                    );
                }
            }
        } else {
            lemma_magnitude_increases(mantissa_bits, result, other);
            lemma_scaled_less(
                magnitude(mantissa_bits, result),
                magnitude(mantissa_bits, other),
                unit,
            );
            if value > significand * step {
                let above = result + 1;
                lemma_magnitude_step(mantissa_bits, result);
                lemma_next_is_a_step_up(mantissa_bits, exponent, significand);
                assert(magnitude(mantissa_bits, above) * unit >= significand * step + step)
                    by (nonlinear_arith)
                    requires
                        magnitude(mantissa_bits, above) >= significand * quantum + quantum,
                        step == unit * quantum,
                        unit > 0,
                ;
                if above < other {
                    lemma_magnitude_increases(mantissa_bits, above, other);
                    lemma_scaled_less(
                        magnitude(mantissa_bits, above),
                        magnitude(mantissa_bits, other),
                        unit,
                    );
                }
            }
        }
    }
}

/// Above a pattern of a binade the next magnitude is at least one quantum of
/// that binade away.
proof fn lemma_next_is_a_step_up(mantissa_bits: nat, exponent: nat, significand: nat)
    requires
        exponent >= 1,
        significand <= 2 * pow2(mantissa_bits),
        exponent == 1 || significand >= pow2(mantissa_bits),
    ensures
        magnitude(mantissa_bits, ((exponent - 1) * pow2(mantissa_bits) + significand + 1) as nat)
            >= significand * pow2((exponent - 1) as nat) + pow2((exponent - 1) as nat),
{
    let base = pow2(mantissa_bits);
    let quantum = pow2((exponent - 1) as nat);
    lemma_pow2_pos(mantissa_bits);
    lemma_pow2_pos((exponent - 1) as nat);
    if significand < 2 * base {
        lemma_magnitude_of_binade(mantissa_bits, exponent, significand + 1);
        assert((significand + 1) * quantum == significand * quantum + quantum) by (nonlinear_arith);
    } else {
        assert((exponent - 1) * base + significand + 1 == exponent * base + (base + 1))
            by (nonlinear_arith)
            requires
                significand == 2 * base,
        ;
        lemma_magnitude_of_binade(mantissa_bits, exponent + 1, base + 1);
        lemma_pow2_unfold(exponent);
        assert((base + 1) * pow2(exponent) >= significand * quantum + quantum) by (nonlinear_arith)
            requires
                significand == 2 * base,
                pow2(exponent) == 2 * quantum,
                quantum > 0,
        ;
    }
}

/// A value at or beyond the top pattern rounds to the top pattern.
pub proof fn lemma_overflow_is_nearest(mantissa_bits: nat, top: nat, unit: nat, value: nat)
    requires
        unit > 0,
        value >= magnitude(mantissa_bits, top) * unit,
    ensures
        is_nearest_even(mantissa_bits, top, unit, value, top),
{
    assert forall|other: nat| other <= top && other != top implies {
        let kept = distance(value, magnitude(mantissa_bits, top) * unit);
        let given = distance(value, #[trigger] magnitude(mantissa_bits, other) * unit);
        kept < given || (kept == given && top % 2 == 0)
    } by {
        lemma_magnitude_increases(mantissa_bits, other, top);
        lemma_scaled_less(magnitude(mantissa_bits, other), magnitude(mantissa_bits, top), unit);
    }
}

/// The pattern that a value rounds to.
pub open spec fn nearest(mantissa_bits: nat, top: nat, unit: nat, value: nat) -> nat {
    choose|result: nat| is_nearest_even(mantissa_bits, top, unit, value, result)
}

/// The last pattern up to `candidate` whose magnitude is at most a value.
proof fn lemma_floor(mantissa_bits: nat, unit: nat, value: nat, candidate: nat) -> (floor: nat)
    ensures
        floor <= candidate,
        magnitude(mantissa_bits, floor) * unit <= value,
        floor < candidate ==> value < magnitude(mantissa_bits, floor + 1) * unit,
    decreases candidate,
{
    if magnitude(mantissa_bits, candidate) * unit <= value {
        candidate
    } else if candidate == 0 {
        lemma_pow2_pos(mantissa_bits);
        vstd::arithmetic::div_mod::lemma_div_basics(pow2(mantissa_bits) as int);
        assert(magnitude(mantissa_bits, 0) * unit == 0) by (nonlinear_arith)
            requires
                magnitude(mantissa_bits, 0) == 0,
        ;
        0
    } else {
        lemma_floor(mantissa_bits, unit, value, (candidate - 1) as nat)
    }
}

/// Every value rounds to a pattern.
pub proof fn lemma_nearest_exists(mantissa_bits: nat, top: nat, unit: nat, value: nat)
    requires
        unit > 0,
    ensures
        is_nearest_even(
            mantissa_bits,
            top,
            unit,
            value,
            nearest(mantissa_bits, top, unit, value),
        ),
{
    let floor = lemma_floor(mantissa_bits, unit, value, top);
    if floor == top {
        lemma_overflow_is_nearest(mantissa_bits, top, unit, value);
    } else {
        let below = value - magnitude(mantissa_bits, floor) * unit;
        let above = magnitude(mantissa_bits, floor + 1) * unit - value;
        let result = if below < above || (below == above && floor % 2 == 0) {
            floor
        } else {
            floor + 1
        };
        assert forall|other: nat| other <= top && other != result implies {
            let kept = distance(value, magnitude(mantissa_bits, result) * unit);
            let given = distance(value, #[trigger] magnitude(mantissa_bits, other) * unit);
            kept < given || (kept == given && result % 2 == 0)
        } by {
            if other < floor {
                lemma_magnitude_increases(mantissa_bits, other, floor);
                lemma_scaled_less(
                    magnitude(mantissa_bits, other),
                    magnitude(mantissa_bits, floor),
                    unit,
                );
            } else if other > floor + 1 {
                lemma_magnitude_increases(mantissa_bits, floor + 1, other);
                lemma_scaled_less(
                    magnitude(mantissa_bits, floor + 1),
                    magnitude(mantissa_bits, other),
                    unit,
                );
            }
        }
        assert(is_nearest_even(mantissa_bits, top, unit, value, result));
    }
}

/// A greater value does not round to a lesser pattern.
pub proof fn lemma_nearest_is_monotone(
    mantissa_bits: nat,
    top: nat,
    unit: nat,
    lesser: nat,
    greater: nat,
)
    requires
        unit > 0,
        lesser <= greater,
    ensures
        nearest(mantissa_bits, top, unit, lesser) <= nearest(mantissa_bits, top, unit, greater),
{
    let low = nearest(mantissa_bits, top, unit, lesser);
    let high = nearest(mantissa_bits, top, unit, greater);
    lemma_nearest_exists(mantissa_bits, top, unit, lesser);
    lemma_nearest_exists(mantissa_bits, top, unit, greater);
    if high < low {
        lemma_magnitude_increases(mantissa_bits, high, low);
        lemma_scaled_less(magnitude(mantissa_bits, high), magnitude(mantissa_bits, low), unit);
        let at_low = magnitude(mantissa_bits, low) * unit;
        let at_high = magnitude(mantissa_bits, high) * unit;
        assert(distance(lesser, at_low) <= distance(lesser, at_high));
        assert(distance(greater, at_high) <= distance(greater, at_low));
        assert(lesser == greater);
    }
}

/// A value rounds to more than an even pattern exactly if it lies beyond the
/// middle between that pattern and the next.
pub proof fn lemma_rounds_beyond(
    mantissa_bits: nat,
    top: nat,
    unit: nat,
    value: nat,
    pattern: nat,
)
    requires
        unit > 0,
        pattern < top,
        pattern % 2 == 0,
    ensures
        nearest(mantissa_bits, top, unit, value) > pattern <==> 2 * value > unit * (magnitude(
            mantissa_bits,
            pattern,
        ) + magnitude(mantissa_bits, pattern + 1)),
{
    let result = nearest(mantissa_bits, top, unit, value);
    let here = magnitude(mantissa_bits, pattern) * unit;
    let next = magnitude(mantissa_bits, pattern + 1) * unit;
    let at = magnitude(mantissa_bits, result) * unit;
    lemma_nearest_exists(mantissa_bits, top, unit, value);
    lemma_magnitude_increases(mantissa_bits, pattern, pattern + 1);
    lemma_scaled_less(
        magnitude(mantissa_bits, pattern),
        magnitude(mantissa_bits, pattern + 1),
        unit,
    );
    assert(unit * (magnitude(mantissa_bits, pattern) + magnitude(mantissa_bits, pattern + 1))
        == here + next) by (nonlinear_arith)
        requires
            here == magnitude(mantissa_bits, pattern) * unit,
            next == magnitude(mantissa_bits, pattern + 1) * unit,
    ;
    if result <= pattern {
        if result < pattern {
            lemma_magnitude_increases(mantissa_bits, result, pattern);
            lemma_scaled_less(
                magnitude(mantissa_bits, result),
                magnitude(mantissa_bits, pattern),
                unit,
            );
        }
        assert(at <= here);
        if 2 * value > here + next {
            assert(distance(value, next) < distance(value, at));
            assert(distance(value, magnitude(mantissa_bits, pattern + 1) * unit) >= distance(
                value,
                at,
            ));
        }
    } else {
        if result > pattern + 1 {
            lemma_magnitude_increases(mantissa_bits, pattern + 1, result);
            lemma_scaled_less(
                magnitude(mantissa_bits, pattern + 1),
                magnitude(mantissa_bits, result),
                unit,
            );
        }
        assert(at >= next);
        if 2 * value <= here + next {
            assert(distance(value, magnitude(mantissa_bits, pattern) * unit) <= distance(
                value,
                at,
            ));
            assert(result == pattern + 1);
        }
    }
}

/// Rounding a quotient does not depend on a common factor.
pub proof fn lemma_rounded_quotient_scales(value: nat, step: nat, result: nat, factor: nat)
    requires
        factor > 0,
        is_rounded_quotient(value, step, result),
    ensures
        is_rounded_quotient(value * factor, step * factor, result),
{
    let gap = distance(value, result * step);
    assert(distance(value * factor, result * (step * factor)) == gap * factor)
        by (nonlinear_arith)
        requires
            gap == distance(value, result * step),
            factor > 0,
    ;
    assert(2 * (gap * factor) <= step * factor) by (nonlinear_arith)
        requires
            2 * gap <= step,
            factor > 0,
    ;
    if 2 * (gap * factor) == step * factor {
        assert(2 * gap == step) by (nonlinear_arith)
            requires
                2 * (gap * factor) == step * factor,
                factor > 0,
        ;
    }
}

/// Two to the power of `exponent`.
pub fn power_of_two(exponent: u32) -> (power: u64)
    requires
        exponent < 64,
    ensures
        power == pow2(exponent as nat),
        power > 0,
{
    proof {
        vstd::arithmetic::power2::lemma2_to64();
    }
    let mut power: u64 = 1;
    let mut i: u32 = 0;
    while i < exponent
        invariant
            i <= exponent < 64,
            power == pow2(i as nat),
            power > 0,
        decreases exponent - i,
    {
        proof {
            lemma_pow2_unfold((i + 1) as nat);
            if i + 1 < 63 {
                lemma_pow2_strictly_increases((i + 1) as nat, 63);
            }
            vstd::arithmetic::power2::lemma2_to64();
            vstd::arithmetic::power2::lemma2_to64_rest();
        }
        power = power * 2;
        i += 1;
    }
    power
}

/// `value / 2^shift`, rounded to the nearest integer with ties to even.
pub fn round_half_even(value: u64, shift: u32) -> (result: u64)
    requires
        1 <= shift < 64,
    ensures
        is_rounded_quotient(value as nat, pow2(shift as nat), result as nat),
{
    let step = power_of_two(shift);
    let half = step / 2;
    let quotient = value / step;
    let rest = value % step;
    proof {
        lemma_pow2_unfold(shift as nat);
        lemma_pow2_pos((shift - 1) as nat);
        vstd::arithmetic::div_mod::lemma_fundamental_div_mod(value as int, step as int);
        assert(step * quotient == quotient * step) by (nonlinear_arith);
        assert((quotient + 1) * step == quotient * step + step) by (nonlinear_arith);
        assert(quotient < u64::MAX) by (nonlinear_arith)
            requires
                value == quotient * step + rest,
                step >= 2,
                rest >= 0,
                value <= u64::MAX,
                quotient >= 0,
        ;
    }
    if rest > half || (rest == half && quotient % 2 == 1) {
        quotient + 1
    } else {
        quotient
    }
}

/// The layout of a narrowing: how wide a significand is, and how the scales
/// of the two formats relate.
spec fn narrowing(wide: nat, narrow: nat, place: nat, significand: nat) -> bool {
    &&& 1 <= narrow < wide
    &&& place >= 1
    &&& significand < 2 * pow2(wide)
    &&& place > 1 ==> significand >= pow2(wide)
}

proof fn lemma_beyond_top(
    wide: nat,
    narrow: nat,
    bias_gap: nat,
    top_exponent: nat,
    place: nat,
    significand: nat,
)
    requires
        narrowing(wide, narrow, place, significand),
        top_exponent >= 2,
        place >= bias_gap + top_exponent,
    ensures
        significand * pow2((place - 1) as nat) >= magnitude(narrow, top_exponent * pow2(narrow))
            * pow2((bias_gap + wide - narrow) as nat),
{
    let dropped = (wide - narrow) as nat;
    let base = pow2(narrow);
    lemma_pow2_pos(narrow);
    assert((top_exponent - 1) * base + base == top_exponent * base) by (nonlinear_arith);
    lemma_magnitude_of_binade(narrow, top_exponent, base);
    let top_quantum = pow2((top_exponent - 1) as nat);
    let unit = pow2((bias_gap + dropped) as nat);
    lemma_pow2_adds(narrow, (top_exponent - 1) as nat);
    lemma_pow2_adds((narrow + top_exponent - 1) as nat, bias_gap + dropped);
    let total = (wide + bias_gap + top_exponent - 1) as nat;
    assert(narrow + top_exponent - 1 + (bias_gap + dropped) == total);
    assert(base * top_quantum * unit == pow2(total));
    lemma_pow2_adds(wide, (place - 1) as nat);
    if total < wide + place - 1 {
        lemma_pow2_strictly_increases(total, (wide + place - 1) as nat);
    }
    let factor = pow2((place - 1) as nat);
    assert(significand * factor >= pow2(wide) * factor) by (nonlinear_arith)
        requires
            significand >= pow2(wide),
            factor >= 0,
    ;
}

/// A rounded significand is at most the carry out of its binade.
pub proof fn lemma_rounded_bound(significand: nat, step: nat, rounded: nat, limit: nat)
    requires
        step >= 2,
        significand < limit * step,
        is_rounded_quotient(significand, step, rounded),
    ensures
        rounded <= limit,
{
    if rounded > limit {
        assert(rounded * step >= limit * step + step) by (nonlinear_arith)
            requires
                rounded >= limit + 1,
                step > 0,
        ;
    }
}

proof fn lemma_normal_result(
    wide: nat,
    narrow: nat,
    bias_gap: nat,
    top_exponent: nat,
    place: nat,
    significand: nat,
    rounded: nat,
)
    requires
        narrowing(wide, narrow, place, significand),
        bias_gap < place < bias_gap + top_exponent,
        is_rounded_quotient(significand, pow2((wide - narrow) as nat), rounded),
    ensures
        rounded <= 2 * pow2(narrow),
        (place - bias_gap - 1) * pow2(narrow) + rounded <= top_exponent * pow2(narrow),
        is_nearest_even(
            narrow,
            top_exponent * pow2(narrow),
            pow2((bias_gap + wide - narrow) as nat),
            significand * pow2((place - 1) as nat),
            ((place - bias_gap - 1) * pow2(narrow) + rounded) as nat,
        ),
{
    let dropped = (wide - narrow) as nat;
    let base = pow2(narrow);
    let binade = (place - bias_gap) as nat;
    let step = pow2(dropped);
    let factor = pow2((place - 1) as nat);
    let unit = pow2((bias_gap + dropped) as nat);
    let value = significand * factor;
    lemma_pow2_pos(narrow);
    lemma_pow2_pos(dropped);
    lemma_pow2_pos((place - 1) as nat);
    lemma_pow2_pos((bias_gap + dropped) as nat);
    lemma_pow2_unfold(dropped);
    lemma_pow2_pos((dropped - 1) as nat);
    lemma_pow2_adds(narrow, dropped);
    assert(significand < (2 * base) * step) by (nonlinear_arith)
        requires
            significand < 2 * (base * step),
    ;
    lemma_rounded_bound(significand, step, rounded, 2 * base);
    lemma_rounded_quotient_scales(significand, step, rounded, factor);
    let scaled = unit * pow2((binade - 1) as nat);
    assert(scaled == step * factor) by {
        lemma_pow2_adds(bias_gap + dropped, (binade - 1) as nat);
        lemma_pow2_adds(dropped, (place - 1) as nat);
        assert(bias_gap + dropped + (binade - 1) == dropped + (place - 1));
    }
    if binade > 1 {
        assert(value >= base * scaled) by (nonlinear_arith)
            requires
                value == significand * factor,
                significand >= base * step,
                scaled == step * factor,
                factor > 0,
        ;
    }
    assert((binade - 1) * base + rounded <= top_exponent * base) by (nonlinear_arith)
        requires
            binade + 1 <= top_exponent,
            rounded <= 2 * base,
            base > 0,
    ;
    lemma_rounded_in_binade_is_nearest(narrow, top_exponent * base, unit, value, binade, rounded);
}

proof fn lemma_subnormal_result(
    wide: nat,
    narrow: nat,
    bias_gap: nat,
    top_exponent: nat,
    place: nat,
    significand: nat,
    rounded: nat,
)
    requires
        narrowing(wide, narrow, place, significand),
        top_exponent >= 2,
        place <= bias_gap,
        is_rounded_quotient(significand, pow2((wide - narrow + bias_gap + 1 - place) as nat), rounded),
    ensures
        is_nearest_even(
            narrow,
            top_exponent * pow2(narrow),
            pow2((bias_gap + wide - narrow) as nat),
            significand * pow2((place - 1) as nat),
            rounded,
        ),
{
    let dropped = (wide - narrow) as nat;
    let base = pow2(narrow);
    let shift = (dropped + bias_gap + 1 - place) as nat;
    let step = pow2(shift);
    let factor = pow2((place - 1) as nat);
    let unit = pow2((bias_gap + dropped) as nat);
    let value = significand * factor;
    lemma_pow2_pos(narrow);
    lemma_pow2_pos((place - 1) as nat);
    lemma_pow2_pos((bias_gap + dropped) as nat);
    lemma_pow2_unfold(shift);
    lemma_pow2_pos((shift - 1) as nat);
    lemma_pow2_adds(narrow, dropped);
    lemma_pow2_strictly_increases(dropped, shift);
    assert(significand < (2 * base) * step) by (nonlinear_arith)
        requires
            significand < 2 * (base * pow2(dropped)),
            pow2(dropped) < step,
            base > 0,
    ;
    lemma_rounded_bound(significand, step, rounded, 2 * base);
    lemma_rounded_quotient_scales(significand, step, rounded, factor);
    assert(unit == step * factor) by {
        lemma_pow2_adds(shift, (place - 1) as nat);
        assert(shift + (place - 1) == bias_gap + dropped);
    }
    vstd::arithmetic::power2::lemma2_to64();
    assert(unit * pow2(0) == unit);
    assert((1 - 1) * base + rounded == rounded) by (nonlinear_arith);
    assert(2 * base <= top_exponent * base) by (nonlinear_arith)
        requires
            top_exponent >= 2,
            base > 0,
    ;
    lemma_rounded_in_binade_is_nearest(narrow, top_exponent * base, unit, value, 1, rounded);
}

proof fn lemma_vanishing_result(
    wide: nat,
    narrow: nat,
    bias_gap: nat,
    top_exponent: nat,
    place: nat,
    significand: nat,
)
    requires
        narrowing(wide, narrow, place, significand),
        top_exponent >= 2,
        place <= bias_gap,
        wide - narrow + bias_gap + 1 - place > wide + 1,
    ensures
        is_nearest_even(
            narrow,
            top_exponent * pow2(narrow),
            pow2((bias_gap + wide - narrow) as nat),
            significand * pow2((place - 1) as nat),
            0,
        ),
{
    let shift = (wide - narrow + bias_gap + 1 - place) as nat;
    lemma_pow2_unfold(shift);
    lemma_pow2_unfold(wide + 1);
    if wide + 1 < shift - 1 {
        lemma_pow2_strictly_increases(wide + 1, (shift - 1) as nat);
    }
    assert(0 * pow2(shift) == 0) by (nonlinear_arith);
    lemma_subnormal_result(wide, narrow, bias_gap, top_exponent, place, significand, 0);
}

/// Rounds a sign-free pattern of a wider binary format to a narrower one.
///
/// `wide` and `narrow` count stored mantissa bits, `bias_gap` is the
/// difference of the exponent biases and `top_exponent` the exponent field of
/// the narrow format's infinity.
pub fn round_magnitude(
    bits: u64,
    wide: u32,
    narrow: u32,
    bias_gap: u32,
    top_exponent: u32,
) -> (result: u64)
    requires
        1 <= narrow < wide <= 52,
        bias_gap <= 1000,
        2 <= top_exponent <= 2047,
        bits < pow2(63),
    ensures
        is_nearest_even(
            narrow as nat,
            (top_exponent * pow2(narrow as nat)) as nat,
            pow2((bias_gap + wide - narrow) as nat),
            magnitude(wide as nat, bits as nat),
            result as nat,
        ),
{
    let wide_base = power_of_two(wide);
    let narrow_base = power_of_two(narrow);
    let dropped: u32 = wide - narrow;
    let exponent = bits / wide_base;
    let mantissa = bits % wide_base;
    let ghost top = (top_exponent * pow2(narrow as nat)) as nat;
    let ghost unit = pow2((bias_gap + dropped) as nat);
    let ghost value = magnitude(wide as nat, bits as nat);
    proof {
        vstd::arithmetic::power2::lemma2_to64();
        vstd::arithmetic::power2::lemma2_to64_rest();
        lemma_pow2_pos(wide as nat);
        lemma_pow2_pos(narrow as nat);
        lemma_pow2_pos((bias_gap + dropped) as nat);
        if wide < 52 {
            lemma_pow2_strictly_increases(wide as nat, 52);
        }
        lemma_pow2_strictly_increases(narrow as nat, wide as nat);
        lemma_pow2_adds(narrow as nat, dropped as nat);
        if narrow < 51 {
            lemma_pow2_strictly_increases(narrow as nat, 51);
        }
        assert(top_exponent * narrow_base <= 2047 * 0x8_0000_0000_0000) by (nonlinear_arith)
            requires
                top_exponent <= 2047,
                narrow_base <= 0x8_0000_0000_0000,
        ;
    }
    let significand: u64 = if exponent == 0 {
        mantissa
    } else {
        wide_base + mantissa
    };
    let place: u64 = if exponent == 0 {
        1
    } else {
        exponent
    };
    let ghost factor = pow2((place - 1) as nat);
    proof {
        lemma_pow2_pos((place - 1) as nat);
        assert(value == significand * factor) by {
            if exponent == 0 {
                assert(significand * pow2(0) == significand);
            }
        }
    }
    if place >= bias_gap as u64 + top_exponent as u64 {
        proof {
            lemma_beyond_top(
                wide as nat,
                narrow as nat,
                bias_gap as nat,
                top_exponent as nat,
                place as nat,
                significand as nat,
            );
            lemma_overflow_is_nearest(narrow as nat, top, unit, value);
        }
        return top_exponent as u64 * narrow_base;
    }
    if place > bias_gap as u64 {
        let rounded = round_half_even(significand, dropped);
        let binade: u64 = place - bias_gap as u64;
        proof {
            lemma_normal_result(
                wide as nat,
                narrow as nat,
                bias_gap as nat,
                top_exponent as nat,
                place as nat,
                significand as nat,
                rounded as nat,
            );
            assert((binade - 1) * narrow_base >= 0) by (nonlinear_arith)
                requires
                    binade >= 1,
            ;
        }
        return (binade - 1) * narrow_base + rounded;
    }
    let shift: u64 = dropped as u64 + (bias_gap as u64 + 1 - place);
    if shift > wide as u64 + 1 {
        proof {
            lemma_vanishing_result(
                wide as nat,
                narrow as nat,
                bias_gap as nat,
                top_exponent as nat,
                place as nat,
                significand as nat,
            );
        }
        return 0;
    }
    let rounded = round_half_even(significand, shift as u32);
    proof {
        lemma_subnormal_result(
            wide as nat,
            narrow as nat,
            bias_gap as nat,
            top_exponent as nat,
            place as nat,
            significand as nat,
            rounded as nat,
        );
    }
    rounded
}

} // verus!
