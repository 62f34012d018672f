use rust_wasm::binary32::{
    is_infinite, is_nan, is_negative, is_positive, is_zero, scale_of, sign_is_set,
    significand_of, truncated_product,
};

fn hardware_count(a: f32, b: f32) -> usize {
    (a * b) as usize
}

fn next(state: &mut u64) -> u32 {
    *state = state
        .wrapping_mul(6364136223846793005)
        .wrapping_add(1442695040888963407);
    (*state >> 32) as u32
}

const LANDMARKS: [f32; 40] = [
    0.0,
    -0.0,
    1.0,
    -1.0,
    0.5,
    0.25,
    0.1,
    0.001,
    1.5,
    2.0,
    3.0,
    0.333_333_34,
    0.333_333_3,
    0.999_999_94,
    1.000_000_1,
    44100.0,
    48000.0,
    22050.0,
    96000.0,
    8000.0,
    16_777_215.0,
    16_777_216.0,
    16_777_218.0,
    8_388_607.5,
    4_294_967_296.0,
    4_294_967_040.0,
    18_446_744_073_709_551_616.0,
    18_446_742_974_197_923_840.0,
    1.0e10,
    1.0e19,
    1.0e30,
    f32::MAX,
    f32::MIN_POSITIVE,
    1.0e-40,
    1.0e-45,
    f32::EPSILON,
    f32::INFINITY,
    f32::NEG_INFINITY,
    f32::NAN,
    -44100.0,
];

#[test]
fn classification_agrees_with_comparisons() {
    for x in LANDMARKS {
        let bits = x.to_bits();
        assert_eq!(is_nan(bits), x.is_nan(), "{x}");
        assert_eq!(is_infinite(bits), x.is_infinite(), "{x}");
        assert_eq!(is_zero(bits), x == 0.0, "{x}");
        assert_eq!(is_positive(bits), x > 0.0, "{x}");
        assert_eq!(is_negative(bits), x < 0.0, "{x}");
        assert_eq!(sign_is_set(bits), x.is_sign_negative(), "{x}");
    }
}

#[test]
fn classification_agrees_with_comparisons_on_scattered_patterns() {
    let mut state: u64 = 0x1234_5678_9abc_def0;
    for _ in 0..200_000 {
        let bits = next(&mut state);
        let x = f32::from_bits(bits);
        assert_eq!(is_nan(bits), x.is_nan());
        assert_eq!(is_infinite(bits), x.is_infinite());
        assert_eq!(is_zero(bits), x == 0.0);
        assert_eq!(is_positive(bits), x > 0.0);
        assert_eq!(is_negative(bits), x < 0.0);
    }
}

#[test]
fn classification_at_the_borders() {
    assert!(!is_positive(0x0000_0000));
    assert!(is_positive(0x0000_0001));
    assert!(is_positive(0x7f7f_ffff));
    assert!(is_positive(0x7f80_0000));
    assert!(!is_positive(0x7f80_0001));
    assert!(!is_positive(0x7fc0_0000));
    assert!(!is_positive(0x8000_0000));
    assert!(!is_positive(0x8000_0001));

    assert!(!is_negative(0x8000_0000));
    assert!(is_negative(0x8000_0001));
    assert!(is_negative(0xff7f_ffff));
    assert!(is_negative(0xff80_0000));
    assert!(!is_negative(0xff80_0001));
    assert!(!is_negative(0xffc0_0000));
    assert!(!is_negative(0x7f80_0000));
    assert!(!is_negative(0x0000_0001));

    assert!(is_nan(0x7f80_0001));
    assert!(is_nan(0xffff_ffff));
    assert!(!is_nan(0x7f80_0000));
    assert!(!is_nan(0xff80_0000));
}

#[test]
fn significand_and_scale_give_the_value() {
    // 1.0 = 2^23 * 2^-23
    assert_eq!(significand_of(1.0f32.to_bits()), 0x80_0000);
    assert_eq!(scale_of(1.0f32.to_bits()), -23);
    // 44100.0 = 11289600 * 2^-8
    assert_eq!(significand_of(44100.0f32.to_bits()), 11_289_600);
    assert_eq!(scale_of(44100.0f32.to_bits()), -8);
    // 0.5 = 2^23 * 2^-24
    assert_eq!(significand_of(0.5f32.to_bits()), 0x80_0000);
    assert_eq!(scale_of(0.5f32.to_bits()), -24);
    // the sign does not enter
    assert_eq!(significand_of((-44100.0f32).to_bits()), 11_289_600);
    assert_eq!(scale_of((-44100.0f32).to_bits()), -8);
    // the smallest subnormal is 1 * 2^-149, the largest 8388607 * 2^-149
    assert_eq!(significand_of(0x0000_0001), 1);
    assert_eq!(scale_of(0x0000_0001), -149);
    assert_eq!(significand_of(0x007f_ffff), 0x7f_ffff);
    assert_eq!(scale_of(0x007f_ffff), -149);
    // the smallest normal is 2^23 * 2^-149
    assert_eq!(significand_of(0x0080_0000), 0x80_0000);
    assert_eq!(scale_of(0x0080_0000), -149);
    // the largest finite is 16777215 * 2^104
    assert_eq!(significand_of(f32::MAX.to_bits()), 0xff_ffff);
    assert_eq!(scale_of(f32::MAX.to_bits()), 104);
}

#[test]
fn significand_and_scale_rebuild_scattered_values() {
    let mut state: u64 = 0x0dd_ba11;
    for _ in 0..100_000 {
        let bits = next(&mut state);
        let x = f32::from_bits(bits);
        if !x.is_finite() {
            continue;
        }
        let rebuilt = significand_of(bits) as f64 * 2.0f64.powi(scale_of(bits));
        assert_eq!(rebuilt, x.abs() as f64, "{bits:#x}");
    }
}

#[test]
fn truncated_product_of_sample_rate_and_duration() {
    assert_eq!(truncated_product(44100.0f32.to_bits(), 1.0f32.to_bits()), 44100);
    assert_eq!(truncated_product(44100.0f32.to_bits(), 0.5f32.to_bits()), 22050);
    assert_eq!(truncated_product(48000.0f32.to_bits(), 2.0f32.to_bits()), 96000);
    assert_eq!(truncated_product(44100.0f32.to_bits(), 0.0f32.to_bits()), 0);
    assert_eq!(truncated_product(8000.0f32.to_bits(), 0.000_1f32.to_bits()), 0);
    assert_eq!(truncated_product(8000.0f32.to_bits(), 0.000_2f32.to_bits()), 1);
    assert_eq!(truncated_product(3.0f32.to_bits(), 2.5f32.to_bits()), 7);
}

#[test]
fn truncated_product_rounds_before_it_truncates() {
    // the single-precision number nearest to 0.01 lies below it, and its
    // exact product with 44100 is 440.99999014...; rounded to twenty-four
    // bits that is 441
    assert!((0.01f32 as f64) < 0.01);
    assert_eq!(truncated_product(44100.0f32.to_bits(), 0.01f32.to_bits()), 441);
    assert_eq!(truncated_product(100.0f32.to_bits(), 0.01f32.to_bits()), 1);
    assert_eq!(truncated_product(1000.0f32.to_bits(), 0.04f32.to_bits()), 40);
    // one forty-four-thousand-one-hundredth of a second is one sample
    assert_eq!(
        truncated_product(44100.0f32.to_bits(), (1.0f32 / 44100.0).to_bits()),
        1
    );
    // 3 * 0.33333334 is a little above one and rounds down to one
    assert_eq!(truncated_product(3.0f32.to_bits(), 0.333_333_34f32.to_bits()), 1);
    // where the exact product fits in twenty-four bits nothing is rounded:
    // three times the number just below one third is 1 - 2^-24
    let third_down = f32::from_bits(0.333_333_34f32.to_bits() - 1);
    assert_eq!(3.0f32 * third_down, 0.999_999_94);
    assert_eq!(truncated_product(3.0f32.to_bits(), third_down.to_bits()), 0);
    // a tie goes to the even neighbour: above 2^24 single precision has
    // the even numbers only, and an odd product lies halfway between two
    assert_eq!(
        truncated_product(4097.0f32.to_bits(), 4097.0f32.to_bits()),
        16_785_408
    );
    assert_eq!(
        truncated_product(4097.0f32.to_bits(), 4099.0f32.to_bits()),
        16_793_604
    );
    // just below 2^24 every whole number is there
    assert_eq!(
        truncated_product(4095.0f32.to_bits(), 4097.0f32.to_bits()),
        16_777_215
    );
}

#[test]
fn truncated_product_of_special_values() {
    let one = 1.0f32.to_bits();
    let nan = f32::NAN.to_bits();
    let inf = f32::INFINITY.to_bits();
    let neg_inf = f32::NEG_INFINITY.to_bits();
    let zero = 0.0f32.to_bits();
    let neg_zero = (-0.0f32).to_bits();
    assert_eq!(truncated_product(nan, one), 0);
    assert_eq!(truncated_product(one, nan), 0);
    assert_eq!(truncated_product(nan, inf), 0);
    assert_eq!(truncated_product(inf, zero), 0);
    assert_eq!(truncated_product(neg_zero, inf), 0);
    assert_eq!(truncated_product(inf, one), usize::MAX);
    assert_eq!(truncated_product(inf, inf), usize::MAX);
    assert_eq!(truncated_product(neg_inf, neg_inf), usize::MAX);
    assert_eq!(truncated_product(neg_inf, inf), 0);
    assert_eq!(truncated_product(inf, (-1.0f32).to_bits()), 0);
    assert_eq!(truncated_product(zero, zero), 0);
    assert_eq!(truncated_product(neg_zero, neg_zero), 0);
    assert_eq!(truncated_product((-2.0f32).to_bits(), (-3.0f32).to_bits()), 6);
    assert_eq!(truncated_product((-2.0f32).to_bits(), 3.0f32.to_bits()), 0);
    assert_eq!(truncated_product(f32::MAX.to_bits(), f32::MAX.to_bits()), usize::MAX);
    assert_eq!(truncated_product(f32::MAX.to_bits(), one), usize::MAX);
    assert_eq!(truncated_product(0x0000_0001, 0x0000_0001), 0);
    assert_eq!(truncated_product(0x0000_0001, f32::MAX.to_bits()), 0);
}

#[test]
fn truncated_product_agrees_with_hardware_on_landmarks() {
    for a in LANDMARKS {
        for b in LANDMARKS {
            assert_eq!(
                truncated_product(a.to_bits(), b.to_bits()),
                hardware_count(a, b),
                "{a} * {b}"
            );
        }
    }
}

#[test]
fn truncated_product_agrees_with_hardware_on_scattered_patterns() {
    let mut state: u64 = 0x5eed_5eed_5eed_5eed;
    for _ in 0..200_000 {
        let a = next(&mut state);
        let b = next(&mut state);
        assert_eq!(
            truncated_product(a, b),
            hardware_count(f32::from_bits(a), f32::from_bits(b)),
            "{a:#x} * {b:#x}"
        );
    }
}

#[test]
fn truncated_product_agrees_with_hardware_where_the_count_is_moderate() {
    // exponents drawn so that most products lie between 2^-8 and 2^72
    let mut state: u64 = 0xfeed_f00d_0000_0001;
    for _ in 0..400_000 {
        let fraction_a = next(&mut state) & 0x007f_ffff;
        let fraction_b = next(&mut state) & 0x007f_ffff;
        let exponent_a = 127 - 4 + next(&mut state) % 40;
        let exponent_b = 127 - 4 + next(&mut state) % 40;
        let a = exponent_a << 23 | fraction_a;
        let b = exponent_b << 23 | fraction_b;
        assert_eq!(
            truncated_product(a, b),
            hardware_count(f32::from_bits(a), f32::from_bits(b)),
            "{a:#x} * {b:#x}"
        );
    }
}

#[test]
fn truncated_product_agrees_with_hardware_next_to_whole_numbers() {
    // a whole number times the numbers around the reciprocal of another
    for n in 1u32..200 {
        for d in 1u32..200 {
            let a = n as f32;
            let near = (1.0f32 / d as f32).to_bits();
            for b in near - 3..=near + 3 {
                assert_eq!(
                    truncated_product(a.to_bits(), b),
                    hardware_count(a, f32::from_bits(b)),
                    "{n} * {b:#x}"
                );
            }
        }
    }
}

#[test]
fn truncated_product_agrees_with_hardware_on_subnormals() {
    let mut state: u64 = 0x0005_0b00_0000_0001;
    for _ in 0..100_000 {
        let a = next(&mut state) & 0x007f_ffff;
        let b = (next(&mut state) % 255) << 23 | (next(&mut state) & 0x007f_ffff);
        assert_eq!(
            truncated_product(a, b),
            hardware_count(f32::from_bits(a), f32::from_bits(b)),
            "{a:#x} * {b:#x}"
        );
    }
}

#[test]
fn truncated_product_is_the_whole_part_of_a_product_that_needs_no_rounding() {
    // whole numbers whose product stays below 2^24 lose nothing
    let mut state: u64 = 0x00c0_ffee;
    for _ in 0..100_000 {
        let a = next(&mut state) % 4096;
        let b = next(&mut state) % 4096;
        assert_eq!(
            truncated_product((a as f32).to_bits(), (b as f32).to_bits()),
            (a * b) as usize
        );
    }
    // halves and quarters are cut off, not rounded
    assert_eq!(truncated_product(7.0f32.to_bits(), 0.5f32.to_bits()), 3);
    assert_eq!(truncated_product(7.0f32.to_bits(), 0.25f32.to_bits()), 1);
    assert_eq!(truncated_product(7.5f32.to_bits(), 1.5f32.to_bits()), 11);
    assert_eq!(truncated_product(0.75f32.to_bits(), 1.25f32.to_bits()), 0);
    assert_eq!(truncated_product(1023.75f32.to_bits(), 4.0f32.to_bits()), 4095);
}
