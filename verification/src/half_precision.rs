//! Conversions between `f32` and the two half-precision formats, IEEE 754
//! binary16 and `bfloat16`, on bit patterns.
//!
//! A floating-point number is held as the bits it is stored in. What a
//! pattern is worth is said by [`crate::rounding::magnitude`]: widening keeps
//! that magnitude exactly, narrowing rounds it to nearest with ties to even.

use crate::rounding::{magnitude, round_magnitude};
use vstd::arithmetic::power2::pow2;
use vstd::prelude::*;

verus! {

/// The bits of a single-precision number without its sign.
pub open spec fn single_magnitude_bits(bits: u32) -> nat {
    (bits % 0x8000_0000) as nat
}

/// The bits of a half-precision number without its sign.
pub open spec fn half_magnitude_bits(bits: u16) -> nat {
    (bits % 0x8000) as nat
}

/// Whether a single-precision pattern is a NaN.
pub open spec fn is_nan_single(bits: u32) -> bool {
    single_magnitude_bits(bits) > 0x7F80_0000
}

/// Whether a single-precision pattern is neither infinite nor a NaN.
pub open spec fn is_finite_single(bits: u32) -> bool {
    single_magnitude_bits(bits) < 0x7F80_0000
}

/// Whether a single-precision number is greater than zero.
pub open spec fn is_positive_single(bits: u32) -> bool {
    0 < bits <= 0x7F80_0000
}

/// Whether a single-precision number is at most zero. A NaN is not, though
/// it is not positive either.
pub open spec fn is_at_most_zero_single(bits: u32) -> bool {
    !is_nan_single(bits) && !is_positive_single(bits)
}

/// Whether a binary16 pattern is a NaN.
pub open spec fn is_nan_f16(bits: u16) -> bool {
    half_magnitude_bits(bits) > 0x7C00
}

/// Whether a `bfloat16` pattern is a NaN.
pub open spec fn is_nan_bf16(bits: u16) -> bool {
    half_magnitude_bits(bits) > 0x7F80
}

/// Whether a half- and a single-precision pattern have the same sign.
pub open spec fn same_sign(half: u16, single: u32) -> bool {
    (half >= 0x8000) == (single >= 0x8000_0000)
}

/// Whether `single` is exactly the number that the binary16 pattern `half`
/// stands for. Infinity and NaN payloads carry over.
pub open spec fn f16_widens_to(half: u16, single: u32) -> bool {
    let h = half_magnitude_bits(half);
    let s = single_magnitude_bits(single);
    &&& same_sign(half, single)
    &&& h < 0x7C00 ==> s < 0x7F80_0000 && magnitude(23, s) == magnitude(10, h) * pow2(125)
    &&& h >= 0x7C00 ==> s == 0x7F80_0000 + (h - 0x7C00) * 0x2000
}

/// Whether `half` is the binary16 pattern nearest to `single`, ties to even,
/// with the magnitudes beyond the largest finite one going to infinity. A NaN
/// keeps the high bits of its payload, or gets the lowest one.
pub open spec fn f32_rounds_to_f16(single: u32, half: u16) -> bool {
    let h = half_magnitude_bits(half);
    let s = single_magnitude_bits(single);
    let payload = (s - 0x7F80_0000) / 0x2000;
    &&& same_sign(half, single)
    &&& is_nan_single(single) ==> h == 0x7C00 + (if payload == 0 {
        1
    } else {
        payload
    })
    &&& !is_nan_single(single) ==> crate::rounding::is_nearest_even(
        10,
        0x7C00,
        pow2(125),
        magnitude(23, s),
        h,
    )
}

/// Whether `half` is the `bfloat16` pattern nearest to `single`, ties to
/// even, with overflow to infinity. A NaN keeps the high bits of its payload,
/// or gets the quiet one.
pub open spec fn f32_rounds_to_bf16(single: u32, half: u16) -> bool {
    let h = half_magnitude_bits(half);
    let s = single_magnitude_bits(single);
    let payload = (s - 0x7F80_0000) / 0x1_0000;
    &&& same_sign(half, single)
    &&& is_nan_single(single) ==> h == 0x7F80 + (if payload == 0 {
        0x40
    } else {
        payload
    })
    &&& !is_nan_single(single) ==> crate::rounding::is_nearest_even(
        7,
        0x7F80,
        pow2(16),
        magnitude(23, s),
        h,
    )
}

/// Whether `single` is the single-precision pattern nearest to the
/// double-precision pattern `double`, ties to even, with overflow to
/// infinity. A NaN becomes the quiet NaN that keeps the high bits of its
/// payload.
pub open spec fn f64_rounds_to_f32(double: u64, single: u32) -> bool {
    let d = (double % 0x8000_0000_0000_0000) as nat;
    let s = single_magnitude_bits(single);
    let payload = (d - 0x7FF0_0000_0000_0000) / 0x2000_0000;
    &&& (double >= 0x8000_0000_0000_0000) == (single >= 0x8000_0000)
    &&& d > 0x7FF0_0000_0000_0000 ==> s == 0x7FC0_0000 + payload % 0x40_0000
    &&& d <= 0x7FF0_0000_0000_0000 ==> crate::rounding::is_nearest_even(
        23,
        0x7F80_0000,
        pow2(925),
        magnitude(52, d),
        s,
    )
}

/// The single-precision pattern that a double-precision one rounds to.
pub open spec fn nearest_single(double: u64) -> u32 {
    choose|single: u32| f64_rounds_to_f32(double, single)
}

/// A double-precision pattern rounds to one single-precision pattern only.
proof fn lemma_single_is_unique(double: u64, a: u32, b: u32)
    requires
        f64_rounds_to_f32(double, a),
        f64_rounds_to_f32(double, b),
    ensures
        a == b,
{
    let d = (double % 0x8000_0000_0000_0000) as nat;
    if d <= 0x7FF0_0000_0000_0000 {
        vstd::arithmetic::power2::lemma_pow2_pos(925);
        crate::rounding::lemma_nearest_is_unique(
            23,
            0x7F80_0000,
            pow2(925),
            magnitude(52, d),
            single_magnitude_bits(a),
            single_magnitude_bits(b),
        );
    }
}

proof fn lemma_powers()
    ensures
        pow2(0) == 1,
        pow2(7) == 0x80,
        pow2(10) == 0x400,
        pow2(13) == 0x2000,
        pow2(16) == 0x1_0000,
        pow2(23) == 0x80_0000,
        pow2(52) == 0x10_0000_0000_0000,
        pow2(63) == 0x8000_0000_0000_0000,
        31 * pow2(10) == 0x7C00,
        255 * pow2(7) == 0x7F80,
        255 * pow2(23) == 0x7F80_0000,
{
    vstd::arithmetic::power2::lemma2_to64();
    vstd::arithmetic::power2::lemma2_to64_rest();
}

/// The value of a normal single-precision pattern with a half-precision
/// significand.
proof fn lemma_widened_magnitude(exponent: nat, significand: nat, scale: nat)
    requires
        1 <= exponent < 255,
        0x400 <= significand < 0x800,
        scale == exponent + 12,
    ensures
        magnitude(23, exponent * 0x80_0000 + (significand - 0x400) as nat * 0x2000)
            == significand * pow2(scale),
{
    lemma_powers();
    let bits = exponent * 0x80_0000 + (significand - 0x400) as nat * 0x2000;
    assert(bits / 0x80_0000 == exponent);
    assert(bits % 0x80_0000 == (significand - 0x400) * 0x2000);
    vstd::arithmetic::power2::lemma_pow2_adds(13, (exponent - 1) as nat);
    assert(scale == 13 + (exponent - 1));
    assert((0x80_0000 + (significand - 0x400) * 0x2000) * pow2((exponent - 1) as nat)
        == significand * (0x2000 * pow2((exponent - 1) as nat))) by (nonlinear_arith);
}

/// Converts one IEEE 754 binary16 value to `f32`, exactly.
pub fn f16_to_f32(bits: u16) -> (single: u32)
    ensures
        f16_widens_to(bits, single),
{
    let sign: u32 = if bits >= 0x8000 {
        0x8000_0000
    } else {
        0
    };
    let exponent: u32 = ((bits % 0x8000) / 0x400) as u32;
    let mantissa: u32 = (bits % 0x400) as u32;
    let ghost h = half_magnitude_bits(bits);
    proof {
        lemma_powers();
        assert(h == exponent * 0x400 + mantissa);
        assert(h / 0x400 == exponent && h % 0x400 == mantissa);
    }
    if exponent == 0 {
        if mantissa == 0 {
            proof {
                assert(magnitude(10, 0) == 0);
                assert(magnitude(23, 0) == 0);
                assert(0 * pow2(125) == 0) by (nonlinear_arith);
                assert(single_magnitude_bits(sign) == 0);
            }
            return sign;
        }
        let mut scaled: u32 = mantissa;
        let mut shift: u32 = 0;
        while scaled < 0x400
            invariant
                0 < mantissa < 0x400,
                shift <= 10,
                scaled == mantissa * pow2(shift as nat),
                scaled < 0x800,
                shift == 10 ==> scaled >= 0x400,
                pow2(10) == 0x400,
            decreases 10 - shift,
        {
            proof {
                vstd::arithmetic::power2::lemma_pow2_unfold((shift + 1) as nat);
                assert(mantissa * pow2((shift + 1) as nat) == 2 * (mantissa * pow2(shift as nat)))
                    by (nonlinear_arith)
                    requires
                        pow2((shift + 1) as nat) == 2 * pow2(shift as nat),
                ;
                if shift + 1 == 10 {
                    assert(mantissa * pow2(10) >= 0x400) by (nonlinear_arith)
                        requires
                            mantissa >= 1,
                            pow2(10) == 0x400,
                    ;
                }
            }
            scaled = scaled * 2;
            shift = shift + 1;
        }
        let magnitude_bits: u32 = (113 - shift) * 0x80_0000 + (scaled - 0x400) * 0x2000;
        proof {
            lemma_widened_magnitude(
                (113 - shift) as nat,
                scaled as nat,
                (125 - shift) as nat,
            );
            vstd::arithmetic::power2::lemma_pow2_adds(shift as nat, (125 - shift) as nat);
            assert(scaled * pow2((125 - shift) as nat) == mantissa * pow2(125)) by (nonlinear_arith)
                requires
                    scaled == mantissa * pow2(shift as nat),
                    pow2(125) == pow2(shift as nat) * pow2((125 - shift) as nat),
            ;
            assert(single_magnitude_bits((sign + magnitude_bits) as u32) == magnitude_bits);
        }
        return sign + magnitude_bits;
    }
    if exponent == 0x1F {
        return sign + 0x7F80_0000 + mantissa * 0x2000;
    }
    let magnitude_bits: u32 = (exponent + 112) * 0x80_0000 + mantissa * 0x2000;
    proof {
        lemma_widened_magnitude(
            (exponent + 112) as nat,
            (0x400 + mantissa) as nat,
            (exponent + 124) as nat,
        );
        vstd::arithmetic::power2::lemma_pow2_adds((exponent - 1) as nat, 125);
        assert((0x400 + mantissa) * pow2((exponent - 1) as nat) * pow2(125) == (0x400 + mantissa)
            * pow2((exponent + 124) as nat)) by (nonlinear_arith)
            requires
                pow2((exponent + 124) as nat) == pow2((exponent - 1) as nat) * pow2(125),
        ;
        assert(single_magnitude_bits((sign + magnitude_bits) as u32) == magnitude_bits);
    }
    sign + magnitude_bits
}

/// Whether `single` is exactly the number that the `bfloat16` pattern `half`
/// stands for. Infinity and NaN payloads carry over.
pub open spec fn bf16_widens_to(half: u16, single: u32) -> bool {
    &&& same_sign(half, single)
    &&& single_magnitude_bits(single) == half_magnitude_bits(half) * 0x1_0000
}

/// Converts one `bfloat16` value to `f32`, exactly: the pattern is the high
/// half of the single-precision one.
pub fn bf16_to_f32(bits: u16) -> (single: u32)
    ensures
        single == bits * 0x1_0000,
        bf16_widens_to(bits, single),
{
    bits as u32 * 0x1_0000
}

/// Converts one `f32` value to IEEE 754 binary16, rounding to nearest with
/// ties to even.
pub fn f32_to_f16(value: u32) -> (half: u16)
    ensures
        f32_rounds_to_f16(value, half),
{
    let sign: u16 = if value >= 0x8000_0000 {
        0x8000
    } else {
        0
    };
    let magnitude_bits = value % 0x8000_0000;
    proof {
        lemma_powers();
    }
    if magnitude_bits > 0x7F80_0000 {
        let payload: u16 = ((magnitude_bits - 0x7F80_0000) / 0x2000) as u16;
        let kept: u16 = if payload == 0 {
            1
        } else {
            payload
        };
        return sign + 0x7C00 + kept;
    }
    let rounded = round_magnitude(magnitude_bits as u64, 23, 10, 112, 31);
    sign + rounded as u16
}

/// Converts one `f32` value to `bfloat16`, rounding to nearest with ties to
/// even.
pub fn f32_to_bf16(value: u32) -> (half: u16)
    ensures
        f32_rounds_to_bf16(value, half),
{
    let sign: u16 = if value >= 0x8000_0000 {
        0x8000
    } else {
        0
    };
    let magnitude_bits = value % 0x8000_0000;
    proof {
        lemma_powers();
    }
    if magnitude_bits > 0x7F80_0000 {
        let payload: u16 = ((magnitude_bits - 0x7F80_0000) / 0x1_0000) as u16;
        let kept: u16 = if payload == 0 {
            0x40
        } else {
            payload
        };
        return sign + 0x7F80 + kept;
    }
    let rounded = round_magnitude(magnitude_bits as u64, 23, 7, 0, 255);
    sign + rounded as u16
}

/// Converts one `f64` value to `f32`, rounding to nearest with ties to even.
pub fn f64_to_f32(value: u64) -> (single: u32)
    ensures
        f64_rounds_to_f32(value, single),
        single == nearest_single(value),
{
    let single = round_f64_to_f32(value);
    proof {
        lemma_single_is_unique(value, single, nearest_single(value));
    }
    single
}

fn round_f64_to_f32(value: u64) -> (single: u32)
    ensures
        f64_rounds_to_f32(value, single),
{
    let sign: u32 = if value >= 0x8000_0000_0000_0000 {
        0x8000_0000
    } else {
        0
    };
    let magnitude_bits = value % 0x8000_0000_0000_0000;
    proof {
        lemma_powers();
    }
    if magnitude_bits > 0x7FF0_0000_0000_0000 {
        let payload = (magnitude_bits - 0x7FF0_0000_0000_0000) / 0x2000_0000;
        return sign + 0x7FC0_0000 + (payload % 0x40_0000) as u32;
    }
    let rounded = round_magnitude(magnitude_bits, 52, 23, 896, 255);
    sign + rounded as u32
}

/// Decoding a binary16 pattern and encoding it again gives the pattern back;
/// a NaN stays a NaN.
pub proof fn law_f16_round_trip(half: u16, single: u32, again: u16)
    requires
        f16_widens_to(half, single),
        f32_rounds_to_f16(single, again),
    ensures
        is_nan_f16(half) == is_nan_f16(again),
        again == half,
{
    lemma_powers();
    let h = half_magnitude_bits(half);
    let s = single_magnitude_bits(single);
    vstd::arithmetic::power2::lemma_pow2_pos(125);
    if h < 0x7C00 {
        crate::rounding::lemma_exact_value_is_kept(
            10,
            0x7C00,
            pow2(125),
            h,
            magnitude(23, s),
            half_magnitude_bits(again),
        );
    } else if h == 0x7C00 {
        assert(magnitude(23, 0x7F80_0000) == 0x80_0000 * pow2(254));
        assert(magnitude(10, 0x7C00) == 0x400 * pow2(30));
        vstd::arithmetic::power2::lemma_pow2_adds(23, 254);
        vstd::arithmetic::power2::lemma_pow2_adds(10, 30);
        vstd::arithmetic::power2::lemma_pow2_adds(40, 125);
        vstd::arithmetic::power2::lemma_pow2_strictly_increases(165, 277);
        crate::rounding::lemma_overflow_is_nearest(10, 0x7C00, pow2(125), magnitude(23, s));
        crate::rounding::lemma_nearest_is_unique(
            10,
            0x7C00,
            pow2(125),
            magnitude(23, s),
            0x7C00,
            half_magnitude_bits(again),
        );
    }
}

/// Decoding a `bfloat16` pattern and encoding it again gives the pattern
/// back; a NaN stays a NaN.
pub proof fn law_bf16_round_trip(half: u16, again: u16)
    requires
        f32_rounds_to_bf16((half * 0x1_0000) as u32, again),
    ensures
        is_nan_bf16(half) == is_nan_bf16(again),
        again == half,
{
    lemma_powers();
    let h = half_magnitude_bits(half);
    let single = (half * 0x1_0000) as u32;
    let s = single_magnitude_bits(single);
    assert(s == h * 0x1_0000);
    if h <= 0x7F80 {
        assert(magnitude(23, s) == magnitude(7, h) * pow2(16)) by {
            assert(s / 0x80_0000 == h / 0x80);
            assert(s % 0x80_0000 == (h % 0x80) * 0x1_0000);
            if h / 0x80 != 0 {
                let quantum = pow2((h / 0x80 - 1) as nat);
                assert((0x80_0000 + (h % 0x80) * 0x1_0000) * quantum == (0x80 + h % 0x80) * quantum
                    * 0x1_0000) by (nonlinear_arith);
            }
        }
        crate::rounding::lemma_exact_value_is_kept(
            7,
            0x7F80,
            pow2(16),
            h,
            magnitude(23, s),
            half_magnitude_bits(again),
        );
    }
}

/// Every double-precision pattern has a single-precision one that it rounds
/// to.
pub proof fn law_every_double_has_its_single(double: u64)
    ensures
        f64_rounds_to_f32(double, nearest_single(double)),
{
    let d = (double % 0x8000_0000_0000_0000) as nat;
    let sign: int = if double >= 0x8000_0000_0000_0000 {
        0x8000_0000
    } else {
        0
    };
    if d > 0x7FF0_0000_0000_0000 {
        let payload = (d - 0x7FF0_0000_0000_0000) / 0x2000_0000;
        let single = (sign + 0x7FC0_0000 + payload % 0x40_0000) as u32;
        assert(f64_rounds_to_f32(double, single));
    } else {
        let value = magnitude(52, d);
        vstd::arithmetic::power2::lemma_pow2_pos(925);
        crate::rounding::lemma_nearest_exists(23, 0x7F80_0000, pow2(925), value);
        let s = crate::rounding::nearest(23, 0x7F80_0000, pow2(925), value);
        let single = (sign + s) as u32;
        assert(single_magnitude_bits(single) == s);
        assert(f64_rounds_to_f32(double, single));
    }
}

/// A double-precision number that a single-precision one is equal to rounds to
/// that one.
pub proof fn law_exact_singles_are_kept(double: u64, single: u32)
    requires
        single_magnitude_bits(single) < 0x7F80_0000,
        (double >= 0x8000_0000_0000_0000) == (single >= 0x8000_0000),
        double % 0x8000_0000_0000_0000 < 0x7FF0_0000_0000_0000,
        magnitude(52, (double % 0x8000_0000_0000_0000) as nat) == magnitude(
            23,
            single_magnitude_bits(single),
        ) * pow2(925),
    ensures
        nearest_single(double) == single,
{
    law_every_double_has_its_single(double);
    vstd::arithmetic::power2::lemma_pow2_pos(925);
    crate::rounding::lemma_exact_value_is_kept(
        23,
        0x7F80_0000,
        pow2(925),
        single_magnitude_bits(single),
        magnitude(52, (double % 0x8000_0000_0000_0000) as nat),
        single_magnitude_bits(nearest_single(double)),
    );
}

/// Narrowing keeps the sign, and exactly the NaNs stay NaNs.
pub proof fn law_narrowing_keeps_signs_and_nans(single: u32, half: u16, brain: u16)
    requires
        f32_rounds_to_f16(single, half),
        f32_rounds_to_bf16(single, brain),
    ensures
        half >= 0x8000 <==> single >= 0x8000_0000,
        brain >= 0x8000 <==> single >= 0x8000_0000,
        half % 0x8000 > 0x7C00 <==> single % 0x8000_0000 > 0x7F80_0000,
        brain % 0x8000 > 0x7F80 <==> single % 0x8000_0000 > 0x7F80_0000,
{
}

/// Decoding a `bfloat16` pattern into single precision and encoding it again
/// gives the pattern back.
pub proof fn law_bf16_widening_is_undone(half: u16, single: u32, again: u16)
    requires
        bf16_widens_to(half, single),
        f32_rounds_to_bf16(single, again),
    ensures
        again == half,
        single == half * 0x1_0000,
{
    law_bf16_round_trip(half, again);
}

/// A normal binary16 number has its exponent in the wider range and its fraction
/// in the wider field.
pub proof fn law_f16_widening_moves_exponent_and_fraction(half: u16, single: u32)
    requires
        f16_widens_to(half, single),
        0x400 <= half % 0x8000 < 0x7C00,
    ensures
        single % 0x8000_0000 == (half % 0x8000) / 0x400 * 0x80_0000 + 112 * 0x80_0000 + (half
            % 0x400) * 0x2000,
{
    lemma_powers();
    let h = half_magnitude_bits(half);
    let exponent = h / 0x400;
    let mantissa = h % 0x400;
    lemma_widened_magnitude(exponent + 112, 0x400 + mantissa, exponent + 124);
    vstd::arithmetic::power2::lemma_pow2_adds((exponent - 1) as nat, 125);
    assert((0x400 + mantissa) * pow2((exponent - 1) as nat) * pow2(125) == (0x400 + mantissa) * pow2(
        exponent + 124,
    )) by (nonlinear_arith)
        requires
            pow2(exponent + 124) == pow2((exponent - 1) as nat) * pow2(125),
    ;
    crate::rounding::lemma_magnitude_injective(
        23,
        single_magnitude_bits(single),
        (exponent + 112) * 0x80_0000 + mantissa * 0x2000,
    );
}

} // verus!
