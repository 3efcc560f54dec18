use hotham_xpbd::fixed::{confined, isqrt, product, quotient, LIMIT, ONE, ONE_SQ};
use hotham_xpbd::vec3::Vec3;

#[test]
fn one_squared_is_the_square_of_one() {
    assert_eq!(ONE as i128 * ONE as i128, ONE_SQ);
}

#[test]
fn quotient_rounds_toward_zero() {
    assert_eq!(quotient(7, 2), 3);
    assert_eq!(quotient(-7, 2), -3);
    assert_eq!(quotient(-1, 2), 0);
    assert_eq!(quotient(0, 5), 0);
    assert_eq!(quotient(-10, 5), -2);
}

#[test]
fn product_is_exact_at_the_ends_of_the_range() {
    assert_eq!(product(i64::MIN, i64::MIN), 1i128 << 126);
    assert_eq!(product(i64::MAX, i64::MIN), -((1i128 << 126) - (1i128 << 63)));
    assert_eq!(product(-3, 4), -12);
}

#[test]
fn confined_clamps_to_the_box() {
    assert_eq!(confined(0), 0);
    assert_eq!(confined(LIMIT as i128), LIMIT);
    assert_eq!(confined(LIMIT as i128 + 1), LIMIT);
    assert_eq!(confined(-(LIMIT as i128) - 1), -LIMIT);
    assert_eq!(confined(i128::MAX), LIMIT);
    assert_eq!(confined(i128::MIN), -LIMIT);
    assert_eq!(confined(-17), -17);
}

#[test]
fn isqrt_rounds_down() {
    assert_eq!(isqrt(0), 0);
    assert_eq!(isqrt(1), 1);
    assert_eq!(isqrt(2), 1);
    assert_eq!(isqrt(3), 1);
    assert_eq!(isqrt(4), 2);
    assert_eq!(isqrt(99), 9);
    assert_eq!(isqrt(100), 10);
    assert_eq!(isqrt(1_000_000_000_000_000_000), 1_000_000_000);
    assert_eq!(isqrt(999_999_999_999_999_999), 999_999_999);
    assert_eq!(isqrt(u128::MAX), u64::MAX);
    assert_eq!(isqrt((u64::MAX as u128) * (u64::MAX as u128)), u64::MAX);
    assert_eq!(isqrt((u64::MAX as u128) * (u64::MAX as u128) - 1), u64::MAX - 1);
}

#[test]
fn isqrt_brackets_every_small_number() {
    for n in 0u128..5000 {
        let r = isqrt(n) as u128;
        assert!(r * r <= n && n < (r + 1) * (r + 1));
    }
}

#[test]
fn vector_sums_and_differences() {
    let a = Vec3::new(1, -2, 3);
    let b = Vec3::new(10, 20, -30);
    assert_eq!(a.plus(b), Vec3::new(11, 18, -27));
    assert_eq!(a.minus(b), Vec3::new(-9, -22, 33));
    assert_eq!(a.negated(), Vec3::new(-1, 2, -3));
    assert_eq!(Vec3::zero(), Vec3::new(0, 0, 0));
}

#[test]
fn vector_sums_are_confined_to_the_box() {
    let a = Vec3::new(LIMIT, -LIMIT, 5);
    let b = Vec3::new(1, -1, 5);
    assert_eq!(a.plus_confined(b), Vec3::new(LIMIT, -LIMIT, 10));
    assert_eq!(a.minus_confined(b), Vec3::new(LIMIT - 1, -LIMIT + 1, 0));
    assert_eq!(Vec3::new(i64::MAX, i64::MIN, 0).confined(), Vec3::new(LIMIT, -LIMIT, 0));
    assert_eq!(
        Vec3::new(i64::MAX, i64::MIN, 0).plus_confined(Vec3::new(i64::MAX, i64::MIN, 0)),
        Vec3::new(LIMIT, -LIMIT, 0)
    );
}

#[test]
fn stored_vectors_lie_in_the_box() {
    assert!(Vec3::new(LIMIT, -LIMIT, 0).is_stored());
    assert!(!Vec3::new(LIMIT + 1, 0, 0).is_stored());
    assert!(!Vec3::new(0, -LIMIT - 1, 0).is_stored());
    assert!(!Vec3::new(0, 0, i64::MAX).is_stored());
}

#[test]
fn dot_and_length_are_in_raw_units() {
    let a = Vec3::new(3 * ONE, 4 * ONE, 0);
    assert_eq!(a.dot(a), 25 * ONE_SQ);
    assert_eq!(a.norm_squared(), 25 * ONE_SQ as u128);
    assert_eq!(a.length(), 5 * ONE);
    assert_eq!(Vec3::new(1, 1, 1).length(), 1);
    assert_eq!(Vec3::new(0, 0, 0).length(), 0);
    assert_eq!(Vec3::new(2, -3, 6).length(), 7);
    assert_eq!(Vec3::new(1, 2, 3).dot(Vec3::new(-4, 5, 6)), 24);
}

#[test]
fn cross_product_follows_the_right_hand() {
    let x = Vec3::new(ONE, 0, 0);
    let y = Vec3::new(0, ONE, 0);
    let z = Vec3::new(0, 0, ONE);
    assert_eq!(x.cross(y), z);
    assert_eq!(y.cross(z), x);
    assert_eq!(z.cross(x), y);
    assert_eq!(y.cross(x), z.negated());
    let a = Vec3::new(300_000_000, -200_000_000, 100_000_000);
    let b = Vec3::new(-50_000_001, 70_000_000, 20_000_000);
    assert_eq!(a.cross(b), Vec3::new(-11_000_000, -11_000_000, 10_999_999));
    assert_eq!(b.cross(a), Vec3::new(11_000_000, 11_000_000, -10_999_999));
}

#[test]
fn scaling_rounds_each_component_toward_zero() {
    let v = Vec3::new(3, -3, 1_500_000_000);
    assert_eq!(v.scaled(ONE / 2), Vec3::new(1, -1, 750_000_000));
    assert_eq!(v.scaled(-ONE / 2), Vec3::new(-1, 1, -750_000_000));
    assert_eq!(v.scaled(0), Vec3::zero());
    assert_eq!(v.scaled(ONE), v);
}
