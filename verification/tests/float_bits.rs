use hotham_xpbd::bits::{next_up_bits, CLEAR_SIGN_MASK, INFINITY_BITS, TINY_BITS};

fn next_up(x: f32) -> f32 {
    f32::from_bits(next_up_bits(x.to_bits()))
}

#[test]
fn constants_are_the_bit_patterns_of_their_floats() {
    assert_eq!(TINY_BITS, f32::from_bits(1).to_bits());
    assert_eq!(INFINITY_BITS, f32::INFINITY.to_bits());
    assert_eq!(CLEAR_SIGN_MASK, !(-0.0f32).to_bits());
}

#[test]
fn next_up_of_special_values() {
    assert!(next_up(f32::NAN).is_nan());
    assert_eq!(next_up_bits(f32::NAN.to_bits()), f32::NAN.to_bits());
    assert_eq!(next_up_bits(0xffc0_0001), 0xffc0_0001);
    assert_eq!(next_up_bits(0x7f80_0001), 0x7f80_0001);
    assert_eq!(next_up(f32::INFINITY), f32::INFINITY);
    assert_eq!(next_up(f32::NEG_INFINITY), f32::MIN);
    assert_eq!(next_up(f32::MAX), f32::INFINITY);
}

#[test]
fn next_up_around_zero() {
    assert_eq!(next_up_bits(0.0f32.to_bits()), 1);
    assert_eq!(next_up_bits((-0.0f32).to_bits()), 1);
    assert_eq!(next_up_bits(0x8000_0001), 0x8000_0000);
    assert_eq!(next_up(f32::from_bits(0x8000_0001)), 0.0);
    assert_eq!(next_up_bits(1), 2);
}

#[test]
fn next_up_of_ordinary_values() {
    assert_eq!(next_up_bits(1.0f32.to_bits()), 0x3f80_0001);
    assert_eq!(next_up_bits((-1.0f32).to_bits()), 0xbf7f_ffff);
    assert_eq!(next_up(1.0), 1.0 + f32::EPSILON);
    assert_eq!(next_up(-1.0), -1.0 + f32::EPSILON / 2.0);
    assert_eq!(next_up(f32::MIN_POSITIVE), f32::from_bits(0x0080_0001));
}

#[test]
fn next_up_is_the_least_float_above() {
    let mut bits: u32 = 0x1234_5678;
    for _ in 0..20_000 {
        bits = bits.wrapping_mul(1_664_525).wrapping_add(1_013_904_223);
        let x = f32::from_bits(bits);
        if x.is_nan() || x == f32::INFINITY {
            assert_eq!(next_up_bits(bits), bits);
            continue;
        }
        let y = next_up(x);
        assert!(y > x);
        let between = (x as f64 + y as f64) / 2.0;
        let back = between as f32;
        assert!(back == x || back == y);
    }
}
