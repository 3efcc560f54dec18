use hotham_xpbd::driver::{
    base_frame_of, heading_of, neck_root_of, resolve_drivers, standing_foot_of, DriverOffsets,
    TrackingInput,
};
use hotham_xpbd::fixed::{LIMIT, ONE};
use hotham_xpbd::frame::Frame;
use hotham_xpbd::locomotion::{Stance, WeightDistribution};
use hotham_xpbd::quat::Quat;
use hotham_xpbd::vec3::Vec3;

fn yaw_30() -> Quat {
    Quat::new(0, 258_819_045, 0, 965_925_826)
}

#[test]
fn standard_offsets_have_the_built_in_values() {
    let o = DriverOffsets::standard();
    assert_eq!(o.head_center_in_hmd, Vec3::new(0, 0, 100_000_000));
    assert_eq!(o.neck_root_in_head_center, Vec3::new(0, -100_000_000, 0));
    assert_eq!(o.left_wrist_in_palm, Vec3::new(-15_000_000, -10_000_000, 65_000_000));
    assert_eq!(o.stance_half_width, 200_000_000);
    assert!(o.is_wf());
}

#[test]
fn offsets_are_well_formed_only_inside_the_box() {
    let mut o = DriverOffsets::standard();
    o.stance_half_width = -1;
    assert!(!o.is_wf());
    o.stance_half_width = LIMIT;
    assert!(o.is_wf());
    o.left_wrist_in_palm = Vec3::new(0, LIMIT + 1, 0);
    assert!(!o.is_wf());
}

#[test]
fn heading_is_the_yaw_of_the_horizontal_forward_axis() {
    assert_eq!(heading_of(Vec3::new(0, 0, ONE)), Quat::identity());
    assert_eq!(heading_of(Vec3::new(500_000_000, 0, 866_025_404)), yaw_30());
    assert_eq!(heading_of(Vec3::new(ONE, 0, 0)), Quat::new(0, 707_106_781, 0, 707_106_781));
    assert_eq!(
        heading_of(Vec3::new(707_106_781, 0, -707_106_781)),
        Quat::new(0, 923_879_532, 0, 382_683_432)
    );
    assert_eq!(heading_of(Vec3::new(0, 0, -ONE)), Quat::new(0, ONE, 0, 0));
    assert_eq!(heading_of(Vec3::new(-ONE, 0, 0)), Quat::new(0, -707_106_781, 0, 707_106_781));
    assert_eq!(
        heading_of(Vec3::new(-500_000_000, 0, -866_025_404)),
        Quat::new(0, -965_925_826, 0, 258_819_045)
    );
}

#[test]
fn heading_ignores_the_pitch_of_the_forward_axis() {
    assert_eq!(
        heading_of(Vec3::new(300_000_000, 800_000_000, 400_000_000)),
        Quat::new(0, 316_227_766, 0, 948_683_298)
    );
    assert_eq!(
        heading_of(Vec3::new(300_000_000, -800_000_000, 400_000_000)),
        Quat::new(0, 316_227_766, 0, 948_683_298)
    );
}

#[test]
fn a_vertical_forward_axis_has_no_heading() {
    assert_eq!(heading_of(Vec3::new(0, ONE, 0)), Quat::identity());
    assert_eq!(heading_of(Vec3::new(0, -ONE, 0)), Quat::identity());
    assert_eq!(heading_of(Vec3::new(700, ONE, 700)), Quat::identity());
    assert_eq!(heading_of(Vec3::zero()), Quat::identity());
    assert!(heading_of(Vec3::new(1_000, ONE, 0)).is_unit());
    assert_eq!(heading_of(Vec3::new(1_000, ONE, 0)), Quat::new(0, 707_106_781, 0, 707_106_781));
}

#[test]
fn heading_is_a_unit_quaternion_all_around() {
    let pi = std::f64::consts::PI;
    for k in 0..3600 {
        let a = (k as f64) * pi / 1800.0;
        let f = Vec3::new((a.sin() * 4e12) as i64, 123, (a.cos() * 4e12) as i64);
        let q = heading_of(f);
        assert!(q.is_unit());
        assert_eq!(q.x, 0);
        assert_eq!(q.z, 0);
        assert!(q.w >= 0);
        let turn = if k > 1800 { a - 2.0 * pi } else { a };
        assert!((q.y as f64 / ONE as f64 - (turn / 2.0).sin()).abs() < 1e-6);
        assert!((q.w as f64 / ONE as f64 - (turn / 2.0).cos()).abs() < 1e-6);
    }
}

#[test]
fn base_frame_stands_upright_on_the_floor_below_the_neck() {
    let neck = Frame::new(Vec3::new(200_000_000, 1_500_000_000, -300_000_000), yaw_30());
    let base = base_frame_of(&neck);
    assert_eq!(base.position, Vec3::new(200_000_000, 0, -300_000_000));
    assert_eq!(base.orientation, yaw_30());
    assert!(base.is_wf());

    let tilted = Frame::new(
        Vec3::new(233_742_578, 1_430_832_883, -231_731_146),
        Quat::new(99_380_799, 257_216_435, -49_690_399, 959_944_804),
    );
    assert_eq!(
        base_frame_of(&tilted),
        Frame::new(Vec3::new(233_742_578, 0, -231_731_146), Quat::new(0, 256_419_220, 0, 966_565_664))
    );
}

#[test]
fn neck_root_hangs_below_and_behind_the_headset() {
    let o = DriverOffsets::standard();
    let hmd = Frame::new(Vec3::new(0, 1_700_000_000, 0), Quat::identity());
    assert_eq!(
        neck_root_of(&hmd, &o),
        Frame::new(Vec3::new(0, 1_600_000_000, 100_000_000), Quat::identity())
    );
    let tilted = Frame::new(
        Vec3::new(200_000_000, 1_550_000_000, -300_000_000),
        Quat::new(99_380_799, 257_216_435, -49_690_399, 959_944_804),
    );
    assert_eq!(
        neck_root_of(&tilted, &o),
        Frame::new(Vec3::new(233_742_578, 1_430_832_883, -231_731_146), tilted.orientation)
    );
}

#[test]
fn feet_start_to_the_sides_of_the_base() {
    let base = Frame::new(Vec3::new(ONE, 0, ONE), Quat::new(0, 707_106_781, 0, 707_106_781));
    let left = standing_foot_of(None, &base, -200_000_000);
    let right = standing_foot_of(None, &base, 200_000_000);
    assert_eq!(left, Frame::new(Vec3::new(ONE, 0, ONE + 199_999_999), base.orientation));
    assert_eq!(right, Frame::new(Vec3::new(ONE, 0, ONE - 199_999_999), base.orientation));
    let sent = Frame::new(Vec3::new(5, 6, 7), Quat::identity());
    assert_eq!(standing_foot_of(Some(sent), &base, -200_000_000), sent);
}

#[test]
fn palms_sit_at_the_grip_and_point_as_the_aim() {
    let o = DriverOffsets::standard();
    let aim_left = Quat::new(199_960_011, 0, 0, 979_804_058);
    let aim_right = Quat::new(0, 0, 301_131_368, 953_582_665);
    let input = TrackingInput {
        hmd: Frame::new(
            Vec3::new(200_000_000, 1_550_000_000, -300_000_000),
            Quat::new(99_380_799, 257_216_435, -49_690_399, 959_944_804),
        ),
        left_grip: Frame::new(Vec3::new(-100_000_000, ONE, 0), yaw_30()),
        left_aim: Frame::new(Vec3::new(-100_000_000, 1_010_000_000, 20_000_000), aim_left),
        right_grip: Frame::new(Vec3::new(500_000_000, 1_100_000_000, -200_000_000), Quat::identity()),
        right_aim: Frame::new(Vec3::new(500_000_000, 1_100_000_000, -180_000_000), aim_right),
    };
    assert!(input.is_wf());
    let base = base_frame_of(&neck_root_of(&input.hmd, &o));
    let stance = Stance {
        distribution: WeightDistribution::SharedWeight,
        left_foot: Frame::new(Vec3::new(1, 2, 3), Quat::identity()),
        right_foot: Frame::new(Vec3::new(4, 5, 6), yaw_30()),
        balance_point: Vec3::new(10_000_000, 0, -20_000_000),
    };
    let d = resolve_drivers(&input, &o, &base, &stance);
    assert!(d.is_wf());
    assert_eq!(d.hmd, input.hmd);
    assert_eq!(
        d.head_center,
        Frame::new(Vec3::new(248_395_061, 1_528_363_747, -215_207_368), input.hmd.orientation)
    );
    assert_eq!(
        d.neck_root,
        Frame::new(Vec3::new(233_742_578, 1_430_832_883, -231_731_146), input.hmd.orientation)
    );
    assert_eq!(d.base, base);
    assert_eq!(d.balance_point, base.offset(stance.balance_point));
    assert_eq!(d.left_grip, input.left_grip);
    assert_eq!(d.left_aim, input.left_aim);
    assert_eq!(d.left_palm, Frame::new(input.left_grip.position, aim_left));
    assert_eq!(d.left_wrist, Frame::new(Vec3::new(-114_999_999, 965_329_869, 55_883_646), aim_left));
    assert_eq!(d.right_grip, input.right_grip);
    assert_eq!(d.right_aim, input.right_aim);
    assert_eq!(d.right_palm, Frame::new(input.right_grip.position, aim_right));
    assert_eq!(d.right_wrist, Frame::new(Vec3::new(518_022_670, 1_100_428_211, -135_000_001), aim_right));
    assert_eq!(d.left_foot, stance.left_foot);
    assert_eq!(d.right_foot, stance.right_foot);
}

#[test]
fn tracking_is_well_formed_only_with_well_formed_frames() {
    let f = Frame::identity();
    let mut input = TrackingInput { hmd: f, left_grip: f, left_aim: f, right_grip: f, right_aim: f };
    assert!(input.is_wf());
    input.right_aim = Frame::new(Vec3::zero(), Quat::new(0, 0, 0, 0));
    assert!(!input.is_wf());
    input.right_aim = f;
    input.hmd = Frame::new(Vec3::new(0, LIMIT + 1, 0), Quat::identity());
    assert!(!input.is_wf());
}
