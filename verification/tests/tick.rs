use hotham_xpbd::driver::{DriverOffsets, TrackingInput};
use hotham_xpbd::fixed::ONE;
use hotham_xpbd::frame::Frame;
use hotham_xpbd::ik::{tick, IkState, LocomotionState, Rig, STANDARD_ITERATIONS};
use hotham_xpbd::landmark::Landmark;
use hotham_xpbd::locomotion::{LocomotionParams, WeightDistribution};
use hotham_xpbd::quat::Quat;
use hotham_xpbd::rig::{build_joints, build_links, Anatomy};
use hotham_xpbd::vec3::Vec3;

fn yaw_30() -> Quat {
    Quat::new(0, 258_819_045, 0, 965_925_826)
}

fn hands() -> (Frame, Frame, Frame, Frame) {
    (
        Frame::new(Vec3::new(-100_000_000, ONE, 0), yaw_30()),
        Frame::new(
            Vec3::new(-100_000_000, 1_010_000_000, 20_000_000),
            Quat::new(199_960_011, 0, 0, 979_804_058),
        ),
        Frame::new(Vec3::new(500_000_000, 1_100_000_000, -200_000_000), Quat::identity()),
        Frame::new(
            Vec3::new(500_000_000, 1_100_000_000, -180_000_000),
            Quat::new(0, 0, 301_131_368, 953_582_665),
        ),
    )
}

fn input_with_head(hmd: Frame) -> TrackingInput {
    let (left_grip, left_aim, right_grip, right_aim) = hands();
    TrackingInput { hmd, left_grip, left_aim, right_grip, right_aim }
}

fn frame(p: (i64, i64, i64), q: (i64, i64, i64, i64)) -> Frame {
    Frame::new(Vec3::new(p.0, p.1, p.2), Quat::new(q.0, q.1, q.2, q.3))
}

#[test]
fn standard_anatomy_has_the_built_in_values() {
    let a = Anatomy::standard();
    assert_eq!(a.lower_arm_length, 280_000_000);
    assert_eq!(a.upper_arm_length, 280_000_000);
    assert_eq!(a.collarbone_length, 170_000_000);
    assert_eq!(a.sternum_width, 60_000_000);
    assert_eq!(a.hip_width, 260_000_000);
    assert_eq!(a.sternum_height_in_torso, 200_000_000);
    assert_eq!(a.neck_root_height_in_torso, 220_000_000);
    assert_eq!(a.lower_back_height_in_torso, -200_000_000);
    assert_eq!(a.lower_back_height_in_pelvis, 100_000_000);
    assert_eq!(a.hip_height_in_pelvis, -70_000_000);
    assert_eq!(a.upper_leg_length, 400_000_000);
    assert_eq!(a.lower_leg_length, 400_000_000);
    assert_eq!(a.ankle_height, 100_000_000);
    assert!(a.is_wf());
    let mut b = a;
    b.upper_leg_length = -1;
    assert!(!b.is_wf());
}

#[test]
fn the_skeleton_has_twelve_ball_joints_in_order() {
    let joints = build_joints(&DriverOffsets::standard(), &Anatomy::standard());
    let bodies: Vec<(Landmark, Landmark)> = joints.iter().map(|c| (c.body_a, c.body_b)).collect();
    assert_eq!(
        bodies,
        vec![
            (Landmark::LeftPalm, Landmark::LeftLowerArm),
            (Landmark::RightPalm, Landmark::RightLowerArm),
            (Landmark::LeftLowerArm, Landmark::LeftUpperArm),
            (Landmark::RightLowerArm, Landmark::RightUpperArm),
            (Landmark::HeadCenter, Landmark::Torso),
            (Landmark::Torso, Landmark::Pelvis),
            (Landmark::Pelvis, Landmark::LeftUpperLeg),
            (Landmark::Pelvis, Landmark::RightUpperLeg),
            (Landmark::LeftUpperLeg, Landmark::LeftLowerLeg),
            (Landmark::RightUpperLeg, Landmark::RightLowerLeg),
            (Landmark::LeftLowerLeg, Landmark::LeftFoot),
            (Landmark::RightLowerLeg, Landmark::RightFoot),
        ]
    );
    assert_eq!(joints[0].point_in_a, Vec3::new(-15_000_000, -10_000_000, 65_000_000));
    assert_eq!(joints[0].point_in_b, Vec3::new(0, 0, -140_000_000));
    assert_eq!(joints[1].point_in_a, Vec3::new(15_000_000, -10_000_000, 65_000_000));
    assert_eq!(joints[1].point_in_b, Vec3::new(0, 0, -140_000_000));
    assert_eq!(joints[2].point_in_a, Vec3::new(0, 0, 140_000_000));
    assert_eq!(joints[2].point_in_b, Vec3::new(0, 0, -140_000_000));
    assert_eq!(joints[3].point_in_a, joints[2].point_in_a);
    assert_eq!(joints[4].point_in_a, Vec3::new(0, -100_000_000, 0));
    assert_eq!(joints[4].point_in_b, Vec3::new(0, 220_000_000, 0));
    assert_eq!(joints[5].point_in_a, Vec3::new(0, -200_000_000, 0));
    assert_eq!(joints[5].point_in_b, Vec3::new(0, 100_000_000, 0));
    assert_eq!(joints[6].point_in_a, Vec3::new(-130_000_000, -70_000_000, 0));
    assert_eq!(joints[6].point_in_b, Vec3::new(0, 200_000_000, 0));
    assert_eq!(joints[7].point_in_a, Vec3::new(130_000_000, -70_000_000, 0));
    assert_eq!(joints[8].point_in_a, Vec3::new(0, -200_000_000, 0));
    assert_eq!(joints[8].point_in_b, Vec3::new(0, 200_000_000, 0));
    assert_eq!(joints[9].point_in_b, joints[8].point_in_b);
    assert_eq!(joints[10].point_in_a, Vec3::new(0, -200_000_000, 0));
    assert_eq!(joints[10].point_in_b, Vec3::new(0, 100_000_000, 0));
    assert_eq!(joints[11].point_in_b, joints[10].point_in_b);
    assert!(joints.iter().all(|c| c.is_wf()));
}

#[test]
fn the_skeleton_has_two_collarbones() {
    let links = build_links(&Anatomy::standard());
    assert_eq!(links.len(), 2);
    assert_eq!(links[0].body_a, Landmark::LeftUpperArm);
    assert_eq!(links[0].body_b, Landmark::Torso);
    assert_eq!(links[0].point_in_a, Vec3::new(0, 0, 140_000_000));
    assert_eq!(links[0].point_in_b, Vec3::new(-30_000_000, 200_000_000, 0));
    assert_eq!(links[0].rest_distance, 170_000_000);
    assert_eq!(links[1].body_a, Landmark::RightUpperArm);
    assert_eq!(links[1].body_b, Landmark::Torso);
    assert_eq!(links[1].point_in_a, Vec3::new(0, 0, 140_000_000));
    assert_eq!(links[1].point_in_b, Vec3::new(30_000_000, 200_000_000, 0));
    assert_eq!(links[1].rest_distance, 170_000_000);
    assert!(links.iter().all(|c| c.is_wf()));
}

#[test]
fn odd_lengths_are_halved_toward_zero() {
    let mut a = Anatomy::standard();
    a.lower_arm_length = 7;
    a.hip_width = 5;
    a.sternum_width = 1;
    let joints = build_joints(&DriverOffsets::standard(), &a);
    assert_eq!(joints[0].point_in_b, Vec3::new(0, 0, -3));
    assert_eq!(joints[2].point_in_a, Vec3::new(0, 0, 3));
    assert_eq!(joints[6].point_in_a, Vec3::new(-2, -70_000_000, 0));
    assert_eq!(joints[7].point_in_a, Vec3::new(2, -70_000_000, 0));
    let links = build_links(&a);
    assert_eq!(links[0].point_in_b, Vec3::new(0, 200_000_000, 0));
}

#[test]
fn the_standard_rig_makes_ten_passes() {
    let rig = Rig::standard();
    assert_eq!(STANDARD_ITERATIONS, 10);
    assert_eq!(rig.iterations, 10);
    assert_eq!(rig.spherical.len(), 12);
    assert_eq!(rig.distance.len(), 2);
    assert_eq!(rig.offsets, DriverOffsets::standard());
    assert_eq!(rig.locomotion, LocomotionParams::standard());
}

#[test]
fn a_new_state_has_no_foot_targets() {
    let state = IkState::new();
    assert_eq!(state.locomotion, LocomotionState::new());
    assert_eq!(state.locomotion.weight_distribution, WeightDistribution::SharedWeight);
    assert_eq!(state.locomotion.left_foot, None);
    assert_eq!(state.locomotion.right_foot, None);
    assert!(state.locomotion.is_wf());
    for i in 0..25 {
        assert_eq!(state.pose.frame(Landmark::from_index(i).unwrap()), Frame::identity());
    }
}

#[test]
fn three_ticks_of_a_tilted_head() {
    let rig = Rig::standard();
    let mut state = IkState::new();
    let input = input_with_head(frame(
        (200_000_000, 1_550_000_000, -300_000_000),
        (99_380_799, 257_216_435, -49_690_399, 959_944_804),
    ));
    for _ in 0..3 {
        tick(&mut state, &input, &rig);
    }
    let base_turn = (0, 256_419_220, 0, 966_565_664);
    assert_eq!(state.locomotion.weight_distribution, WeightDistribution::SharedWeight);
    assert_eq!(state.locomotion.left_foot, Some(frame((60_042_905, 0, -132_592_741), base_turn)));
    assert_eq!(state.locomotion.right_foot, Some(frame((407_442_251, 0, -330_869_551), base_turn)));
    let pose = &state.pose;
    assert_eq!(
        pose.frame(Landmark::Torso),
        frame((198_342_644, 1_101_052_083, 71_368_042), (21_215_588, 30_085_824, -55_355_600, 997_787_802))
    );
    assert_eq!(
        pose.frame(Landmark::Pelvis),
        frame((174_552_991, 909_690_049, -92_577_236), (34_638_896, 25_035_010, -32_202_567, 998_567_169))
    );
    assert_eq!(
        pose.frame(Landmark::LeftLowerArm),
        frame((-26_634_344, 1_053_333_861, -28_808_086), (9_379_900, 235_677_756, 35_365_261, 971_142_271))
    );
    assert_eq!(
        pose.frame(Landmark::RightUpperArm),
        frame((319_368_029, 1_170_804_750, 85_679_735), (-108_203_498, -159_892_148, -13_050_635, 981_099_478))
    );
    assert_eq!(
        pose.frame(Landmark::LeftUpperLeg),
        frame((41_047_526, 659_076_379, -92_279_100), (13_209_658, 437_182, 8_379_712, 999_877_540))
    );
    assert_eq!(
        pose.frame(Landmark::RightLowerLeg),
        frame((362_692_262, 275_108_092, -262_299_079), (168_545_289, 2_091_194, 112_282_907, 979_275_580))
    );
    assert_eq!(pose.frame(Landmark::Hmd), input.hmd);
    assert_eq!(pose.frame(Landmark::Base), frame((233_742_578, 0, -231_731_146), base_turn));
    assert_eq!(pose.frame(Landmark::BalancePoint), frame((233_742_578, 0, -231_731_146), base_turn));
    assert_eq!(pose.frame(Landmark::LeftFoot), state.locomotion.left_foot.unwrap());
    assert_eq!(pose.frame(Landmark::RightFoot), state.locomotion.right_foot.unwrap());
    assert_eq!(
        pose.frame(Landmark::LeftWrist),
        frame((-114_999_999, 965_329_869, 55_883_646), (199_960_011, 0, 0, 979_804_058))
    );
    assert_eq!(
        pose.frame(Landmark::RightWrist),
        frame((518_022_670, 1_100_428_211, -135_000_001), (0, 0, 301_131_368, 953_582_665))
    );
}

#[test]
fn walking_plants_a_foot_and_swings_the_other() {
    let rig = Rig::standard();
    let mut state = IkState::new();
    let still = |x: i64| input_with_head(frame((x, 1_500_000_000, -100_000_000), (0, 0, 0, ONE)));
    let on_floor = |x: i64| Some(frame((x, 0, 0), (0, 0, 0, ONE)));

    tick(&mut state, &still(0), &rig);
    assert_eq!(state.locomotion.weight_distribution, WeightDistribution::SharedWeight);
    assert_eq!(state.locomotion.left_foot, on_floor(-200_000_000));
    assert_eq!(state.locomotion.right_foot, on_floor(200_000_000));

    tick(&mut state, &still(150_000_000), &rig);
    assert_eq!(state.locomotion.weight_distribution, WeightDistribution::RightPlanted);
    assert_eq!(state.locomotion.left_foot, on_floor(0));
    assert_eq!(state.locomotion.right_foot, on_floor(200_000_000));
    assert_eq!(state.pose.frame(Landmark::BalancePoint), frame((150_000_000, 0, 0), (0, 0, 0, ONE)));
    assert_eq!(state.pose.frame(Landmark::LeftFoot), on_floor(0).unwrap());

    tick(&mut state, &still(150_000_000), &rig);
    assert_eq!(state.locomotion.weight_distribution, WeightDistribution::RightPlanted);
    assert_eq!(state.locomotion.left_foot, on_floor(0));
    assert_eq!(state.locomotion.right_foot, on_floor(200_000_000));

    tick(&mut state, &still(0), &rig);
    assert_eq!(state.locomotion.weight_distribution, WeightDistribution::LeftPlanted);
    assert_eq!(state.locomotion.left_foot, on_floor(0));
    assert_eq!(state.locomotion.right_foot, on_floor(0));
}

#[test]
fn standing_still_relaxes_the_body_toward_its_constraints() {
    let rig = Rig::standard();
    let mut state = IkState::new();
    let input = input_with_head(frame((0, 1_450_000_000, 0), (0, 0, 0, ONE)));
    let worst = |state: &IkState| -> i64 {
        let mut m: i64 = 0;
        for c in &rig.spherical {
            m = m.max(c.error(&state.pose).length());
        }
        for c in &rig.distance {
            m = m.max(c.error(&state.pose).abs());
        }
        m
    };
    tick(&mut state, &input, &rig);
    let first = worst(&state);
    for _ in 0..60 {
        tick(&mut state, &input, &rig);
        for i in 0..25 {
            let f = state.pose.frame(Landmark::from_index(i).unwrap());
            assert!(f.is_wf());
        }
    }
    let last = worst(&state);
    assert!(last < first / 4);
    assert!(last < 100_000_000);
    assert_eq!(state.locomotion.weight_distribution, WeightDistribution::SharedWeight);
}

#[test]
fn a_rig_is_well_formed_only_with_well_formed_parts() {
    let mut rig = Rig::standard();
    assert!(rig.is_wf());
    rig.spherical[11].point_in_b = Vec3::new(0, 0, 1_000_000_000_001);
    assert!(!rig.is_wf());
    let mut rig = Rig::standard();
    rig.distance[1].rest_distance = -1;
    assert!(!rig.is_wf());
    let mut rig = Rig::standard();
    rig.locomotion.foot_radius = -1;
    assert!(!rig.is_wf());
    let mut rig = Rig::standard();
    rig.offsets.stance_half_width = -1;
    assert!(!rig.is_wf());
    let mut rig = Rig::standard();
    rig.spherical.clear();
    rig.distance.clear();
    assert!(rig.is_wf());
}

#[test]
fn a_state_is_well_formed_only_with_well_formed_parts() {
    let mut state = IkState::new();
    assert!(state.is_wf());
    state.locomotion.left_foot = Some(Frame::new(Vec3::zero(), Quat::new(0, 0, 0, 0)));
    assert!(!state.is_wf());
    assert!(!state.locomotion.is_wf());
    state.locomotion.left_foot = None;
    state.pose.set_frame(Landmark::Torso, Frame::new(Vec3::zero(), Quat::new(1, 1, 1, 1)));
    assert!(!state.is_wf());
}

#[test]
fn a_tick_keeps_the_state_well_formed_at_the_edge_of_the_box() {
    let rig = Rig::standard();
    let mut state = IkState::new();
    let far = 1_000_000_000_000;
    let corner = Frame::new(Vec3::new(far, far, -far), Quat::new(600_000_000, 0, 800_000_000, 0));
    let other = Frame::new(Vec3::new(-far, -far, far), Quat::new(0, 707_106_781, 707_106_781, 0));
    let input = TrackingInput {
        hmd: corner,
        left_grip: other,
        left_aim: corner,
        right_grip: corner,
        right_aim: other,
    };
    assert!(input.is_wf());
    for _ in 0..5 {
        tick(&mut state, &input, &rig);
        assert!(state.is_wf());
    }
    let back = TrackingInput { hmd: other, ..input };
    for _ in 0..5 {
        tick(&mut state, &back, &rig);
        assert!(state.is_wf());
    }
}

struct Lcg(u64);

impl Lcg {
    fn next(&mut self) -> i64 {
        self.0 = self.0.wrapping_mul(6364136223846793005).wrapping_add(1442695040888963407);
        (self.0 >> 11) as i64
    }

    fn within(&mut self, lo: i64, hi: i64) -> i64 {
        lo + self.next() % (hi - lo)
    }

    fn frame(&mut self, reach: i64) -> Frame {
        let p = Vec3::new(self.within(-reach, reach), self.within(0, reach), self.within(-reach, reach));
        let x = self.within(-ONE, ONE);
        let y = self.within(-ONE, ONE);
        let z = self.within(-ONE, ONE);
        let w = self.within(-ONE, ONE);
        Frame::new(p, Quat::new(x, y, z, w).normalized_or(Quat::identity()))
    }
}

fn run_of_ticks(seed: u64, ticks: usize, reach: i64) -> (u64, String) {
    let rig = Rig::standard();
    let mut state = IkState::new();
    let mut r = Lcg(seed);
    let mut h: u64 = 0;
    let mut distributions = String::new();
    let mut last = Frame::identity();
    for t in 0..ticks {
        let mut hmd = r.frame(reach);
        if t % 3 == 1 {
            hmd = last;
        } else if t % 3 == 2 {
            let dx = r.within(-200_000_000, 200_000_000);
            let dz = r.within(-200_000_000, 200_000_000);
            hmd = Frame::new(
                Vec3::new(last.position.x + dx, last.position.y, last.position.z + dz),
                last.orientation,
            );
        }
        last = hmd;
        let left_grip = r.frame(reach);
        let left_aim = r.frame(reach);
        let right_grip = r.frame(reach);
        let right_aim = r.frame(reach);
        let input = TrackingInput { hmd, left_grip, left_aim, right_grip, right_aim };
        assert!(input.is_wf());
        tick(&mut state, &input, &rig);
        assert!(state.is_wf());
        for i in 0..25 {
            let f = state.pose.frame(Landmark::from_index(i).unwrap());
            for c in [
                f.position.x,
                f.position.y,
                f.position.z,
                f.orientation.x,
                f.orientation.y,
                f.orientation.z,
                f.orientation.w,
            ] {
                h = h.wrapping_mul(1_000_003).wrapping_add(c as u64);
            }
        }
        distributions.push(match state.locomotion.weight_distribution {
            WeightDistribution::LeftPlanted => 'L',
            WeightDistribution::RightPlanted => 'R',
            WeightDistribution::SharedWeight => 'S',
        });
    }
    (h, distributions)
}

#[test]
fn a_run_of_ticks_in_a_room() {
    let (h, d) = run_of_ticks(1, 60, 2 * ONE);
    assert_eq!(d, "SSRSSSSSSSSSSSSSSSSSSSSSSSSSSSSSSSSSSSSSSSSSSSSSSSSSSSSSSSSS");
    assert_eq!(h, 8811512450741544532);
}

#[test]
fn a_run_of_ticks_across_the_box() {
    let (h, d) = run_of_ticks(2, 60, 999 * ONE);
    assert_eq!(d, "S".repeat(60));
    assert_eq!(h, 5270949485365532177);
}

#[test]
fn a_run_of_ticks_on_the_spot() {
    let (h, d) = run_of_ticks(3, 90, ONE / 2);
    assert_eq!(
        d,
        "SSSSLRSLLSLSSSSSLLSSSSLSSSSSSSSSSSSSSRLSSSSSSSRSSSSSSSSLSSRSSSSSSLSSLSRSSSSSSSSSSSSLSSSSSS"
    );
    assert_eq!(h, 6670681864178561963);
}
