use magnetar_provider_cuda::half_precision::{
    bf16_to_f32, f16_to_f32, f32_to_bf16, f32_to_f16, f64_to_f32,
};

#[test]
fn f32_to_f16_round_trips_every_possible_f16_bit_pattern_exactly() {
    for bits in 0u32..=0xFFFF {
        let bits = bits as u16;
        let decoded = f16_to_f32(bits);
        let reencoded = f32_to_f16(decoded);
        if f32::from_bits(decoded).is_nan() {
            assert!(f32::from_bits(f16_to_f32(reencoded)).is_nan());
        }
        assert_eq!(reencoded, bits);
    }
}

#[test]
fn f32_to_bf16_round_trips_every_possible_bf16_bit_pattern_exactly() {
    for bits in 0u32..=0xFFFF {
        let bits = bits as u16;
        let decoded = bf16_to_f32(bits);
        let reencoded = f32_to_bf16(decoded);
        if f32::from_bits(decoded).is_nan() {
            assert!(f32::from_bits(bf16_to_f32(reencoded)).is_nan());
        }
        assert_eq!(reencoded, bits);
    }
}

#[test]
fn binary16_values_are_the_standard_ones() {
    for (half, single) in [
        (0x0000u16, 0.0f32),
        (0x3C00, 1.0),
        (0xC000, -2.0),
        (0x7BFF, 65504.0),
        (0x0400, 6.103515625e-5),
        (0x0001, 5.9604644775390625e-8),
        (0x03FF, 6.097555160522461e-5),
        (0x3555, 0.333251953125),
    ] {
        assert_eq!(f32::from_bits(f16_to_f32(half)), single);
        assert_eq!(f32_to_f16(single.to_bits()), half);
    }
    assert_eq!(f16_to_f32(0x8000), (-0.0f32).to_bits());
    assert_eq!(f16_to_f32(0x7C00), f32::INFINITY.to_bits());
    assert_eq!(f16_to_f32(0xFC00), f32::NEG_INFINITY.to_bits());
}

#[test]
fn binary16_rounds_to_nearest_with_ties_to_even() {
    let f16 = |value: f32| f32_to_f16(value.to_bits());
    assert_eq!(f16(1.0 + 1.0 / 2048.0), 0x3C00);
    assert_eq!(f16(1.0 + 3.0 / 2048.0), 0x3C02);
    assert_eq!(f16(1.0 + 1.1 / 2048.0), 0x3C01);
    assert_eq!(f16(65519.99), 0x7BFF);
    assert_eq!(f16(65520.0), 0x7C00);
    assert_eq!(f16(-1e30), 0xFC00);
    assert_eq!(f16(f32::INFINITY), 0x7C00);
    assert_eq!(f16(2.9802322387695312e-8), 0x0000);
    assert_eq!(f16(2.98023259404e-8), 0x0001);
    assert_eq!(f16(1e-40), 0x0000);
    assert_eq!(f32_to_f16(0x7F80_0001), 0x7C01);
    assert_eq!(f32_to_f16(0xFFC0_0000), 0xFE00);
}

#[test]
fn bfloat16_rounds_to_nearest_with_ties_to_even() {
    let bf16 = |value: f32| f32_to_bf16(value.to_bits());
    assert_eq!(bf16(1.0), 0x3F80);
    assert_eq!(bf16(-2.5), 0xC020);
    assert_eq!(bf16(1.0 + 1.0 / 256.0), 0x3F80);
    assert_eq!(bf16(1.0 + 3.0 / 256.0), 0x3F82);
    assert_eq!(bf16(f32::MAX), 0x7F80);
    assert_eq!(bf16(f32::NEG_INFINITY), 0xFF80);
    assert_eq!(f32_to_bf16(0x7F80_0001), 0x7FC0);
    assert_eq!(f32_to_bf16(0xFFC1_0000), 0xFFC1);
    assert_eq!(bf16_to_f32(0x4049), 3.140625f32.to_bits());
}

#[test]
fn doubles_narrow_as_a_cast_does() {
    for value in [
        0.0f64,
        -0.0,
        1.0,
        1e-6,
        1e-5,
        10000.0,
        0.1,
        -0.3333333333333333,
        1.0 + 1.0 / 16777216.0,
        1.0 + 3.0 / 16777216.0,
        3.4028235677973366e38,
        3.4028235677973362e38,
        1e300,
        -1e300,
        1e-45,
        7.006492321624085e-46,
        7.0064923216240862e-46,
        1e-310,
        f64::INFINITY,
        f64::NEG_INFINITY,
        f64::MAX,
        f64::MIN_POSITIVE,
    ] {
        assert_eq!(f64_to_f32(value.to_bits()), (value as f32).to_bits(), "{value:e}");
    }
    assert!(f32::from_bits(f64_to_f32(f64::NAN.to_bits())).is_nan());
}
