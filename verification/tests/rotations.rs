use hotham_xpbd::fixed::{LIMIT, ONE};
use hotham_xpbd::frame::Frame;
use hotham_xpbd::quat::{Quat, MIN_NORM, UNIT_TOLERANCE};
use hotham_xpbd::vec3::Vec3;

const HALF_TURN_ROOT: i64 = 707_106_781;

fn quarter_turn_about_y() -> Quat {
    Quat::new(0, HALF_TURN_ROOT, 0, HALF_TURN_ROOT)
}

fn norm_squared(q: Quat) -> i128 {
    let s = |c: i64| c as i128 * c as i128;
    s(q.x) + s(q.y) + s(q.z) + s(q.w)
}

#[test]
fn identity_is_a_unit_quaternion() {
    let q = Quat::identity();
    assert_eq!(q, Quat::new(0, 0, 0, ONE));
    assert!(q.is_unit());
    assert_eq!(q.norm_squared(), (ONE as u128) * (ONE as u128));
}

#[test]
fn unit_test_accepts_the_tolerance_and_no_more() {
    assert!(quarter_turn_about_y().is_unit());
    assert!(Quat::new(0, 0, 0, ONE + 2).is_unit());
    assert!(!Quat::new(0, 0, 0, ONE + 3).is_unit());
    assert!(Quat::new(0, 0, 0, -ONE + 2).is_unit());
    assert!(!Quat::new(0, 0, 0, ONE - 3).is_unit());
    assert!(!Quat::new(0, 0, 0, 0).is_unit());
    assert!(!Quat::new(i64::MAX, i64::MIN, 0, 0).is_unit());
    assert_eq!(UNIT_TOLERANCE, 4 * ONE + 4);
}

#[test]
fn identity_turns_nothing() {
    let v = Vec3::new(300_000_000, -200_000_000, 100_000_000);
    assert_eq!(Quat::identity().rotate(v), v);
    assert_eq!(Quat::identity().rotate(Vec3::new(LIMIT, -LIMIT, LIMIT)), Vec3::new(LIMIT, -LIMIT, LIMIT));
}

#[test]
fn quarter_turn_about_y_sends_x_to_minus_z() {
    let q = quarter_turn_about_y();
    assert_eq!(q.rotate(Vec3::new(ONE, 0, 0)), Vec3::new(0, 0, -999_999_999));
    assert_eq!(
        q.rotate(Vec3::new(300_000_000, 200_000_000, -100_000_000)),
        Vec3::new(-99_999_999, 199_999_999, -299_999_999)
    );
    assert_eq!(q.conjugate().rotate(Vec3::new(0, 0, ONE)), Vec3::new(-999_999_999, 0, 0));
}

#[test]
fn conjugate_negates_the_vector_part() {
    assert_eq!(Quat::new(1, -2, 3, 4).conjugate(), Quat::new(-1, 2, -3, 4));
}

#[test]
fn normalizing_rescales_to_unit_length() {
    let id = Quat::identity();
    assert_eq!(Quat::new(0, 0, 0, 2 * ONE).normalized_or(id), id);
    assert_eq!(
        Quat::new(3 * ONE, 4 * ONE, 0, 0).normalized_or(id),
        Quat::new(600_000_000, 800_000_000, 0, 0)
    );
    let q = Quat::new(ONE, 2 * ONE, 3 * ONE, 4 * ONE).normalized_or(id);
    assert_eq!(q, Quat::new(182_574_185, 365_148_371, 547_722_557, 730_296_743));
    assert!(q.is_unit());
}

#[test]
fn normalizing_leaves_a_unit_quaternion_alone() {
    let q = quarter_turn_about_y();
    assert_eq!(q.normalized_or(Quat::identity()), q);
    let almost = Quat::new(0, 0, 0, ONE + 2);
    assert_eq!(almost.normalized_or(Quat::identity()), almost);
}

#[test]
fn normalizing_falls_back_where_there_is_no_direction() {
    let fallback = quarter_turn_about_y();
    assert_eq!(Quat::new(0, 0, 0, 0).normalized_or(fallback), fallback);
    assert_eq!(Quat::new(ONE / 4, 0, 0, 0).normalized_or(fallback), fallback);
    assert_eq!(Quat::new(MIN_NORM - 1, 0, 0, 0).normalized_or(fallback), fallback);
    assert_eq!(Quat::new(MIN_NORM, 0, 0, 0).normalized_or(fallback), Quat::new(ONE, 0, 0, 0));
}

#[test]
fn turning_is_the_first_order_rotation() {
    let id = Quat::identity();
    assert_eq!(id.turned(Vec3::zero()), id);
    assert_eq!(id.turned(Vec3::new(10_000, 0, 0)), Quat::new(5_000, 0, 0, ONE));
    assert_eq!(id.turned(Vec3::new(200_000_000, 0, 0)), Quat::new(99_503_719, 0, 0, 995_037_190));
    assert_eq!(
        quarter_turn_about_y().turned(Vec3::new(20_000_000, -40_000_000, 60_000_000)),
        Quat::new(-14_132_245, 692_480_080, 28_264_492, 720_744_572)
    );
}

#[test]
fn turning_keeps_unit_length_for_any_rotation() {
    let mut q = Quat::identity();
    let mut seed: i64 = 12345;
    for _ in 0..2000 {
        seed = (seed.wrapping_mul(6364136223846793005).wrapping_add(1442695040888963407)) >> 1;
        let wx = seed % (3 * ONE);
        let wy = (seed >> 7) % (3 * ONE);
        let wz = (seed >> 13) % (3 * ONE);
        q = q.turned(Vec3::new(wx, wy, wz));
        assert!(q.is_unit());
        let n = norm_squared(q);
        let one_sq = ONE as i128 * ONE as i128;
        assert!((n - one_sq).abs() <= UNIT_TOLERANCE as i128);
        let norm = (n as f64).sqrt() / ONE as f64;
        assert!((norm - 1.0).abs() < 1e-5);
    }
}

#[test]
fn turning_by_the_largest_rotation_keeps_unit_length() {
    let big: i64 = 1 << 60;
    let q = quarter_turn_about_y().turned(Vec3::new(big, -big, big));
    assert!(q.is_unit());
    let q = Quat::identity().turned(Vec3::new(-big, -big, -big));
    assert!(q.is_unit());
}

#[test]
fn frame_offsets_act_in_the_axes_of_the_frame() {
    let f = Frame::new(Vec3::new(ONE, 2 * ONE, 3 * ONE), quarter_turn_about_y());
    let g = f.offset(Vec3::new(ONE, 0, 0));
    assert_eq!(g.orientation, f.orientation);
    assert_eq!(g.position, Vec3::new(ONE, 2 * ONE, 2 * ONE + 1));
    assert_eq!(Frame::identity().offset(Vec3::new(5, 6, 7)).position, Vec3::new(5, 6, 7));
}

#[test]
fn frame_offsets_stay_in_the_box() {
    let f = Frame::new(Vec3::new(LIMIT, -LIMIT, 0), Quat::identity());
    let g = f.offset(Vec3::new(LIMIT, -LIMIT, LIMIT));
    assert_eq!(g.position, Vec3::new(LIMIT, -LIMIT, LIMIT));
    assert!(g.is_wf());
}

#[test]
fn to_local_undoes_an_offset_at_identity() {
    let f = Frame::new(Vec3::new(ONE, 2 * ONE, 3 * ONE), Quat::identity());
    assert_eq!(f.to_local(Vec3::new(ONE + 5, 2 * ONE - 6, 3 * ONE + 7)), Vec3::new(5, -6, 7));
    let g = Frame::new(Vec3::new(ONE, 0, 0), quarter_turn_about_y());
    assert_eq!(g.to_local(Vec3::new(ONE, 0, -ONE)), Vec3::new(999_999_999, 0, 0));
}

#[test]
fn frames_are_well_formed_only_with_stored_position_and_unit_orientation() {
    assert!(Frame::identity().is_wf());
    assert!(!Frame::new(Vec3::new(LIMIT + 1, 0, 0), Quat::identity()).is_wf());
    assert!(!Frame::new(Vec3::zero(), Quat::new(0, 0, 0, 2 * ONE)).is_wf());
}
