//! The anatomy of the skeleton and the constraints that encode it.

use crate::constraint::{DistanceConstraint, DistanceModel, SphericalConstraint, SphericalModel};
use crate::driver::{mirrored, DriverOffsets};
use crate::fixed::LIMIT;
use crate::landmark::Landmark;
use crate::vec3::{Vec3, V3};
use vstd::prelude::*;

verus! {

/// The measures of the body. Lengths and widths are not negative; a height
/// is taken from the centre of its body and may point down.
#[derive(Clone, Copy, Debug, PartialEq, Eq, Structural)]
pub struct Anatomy {
    pub lower_arm_length: i64,
    pub upper_arm_length: i64,
    pub collarbone_length: i64,
    pub sternum_width: i64,
    pub hip_width: i64,
    pub sternum_height_in_torso: i64,
    pub neck_root_height_in_torso: i64,
    pub lower_back_height_in_torso: i64,
    pub lower_back_height_in_pelvis: i64,
    pub hip_height_in_pelvis: i64,
    pub upper_leg_length: i64,
    pub lower_leg_length: i64,
    pub ankle_height: i64,
}

impl Anatomy {
    /// Every length and width is a stored length and every height a stored
    /// coordinate.
    pub open spec fn wf(&self) -> bool {
        &&& 0 <= self.lower_arm_length <= LIMIT
        &&& 0 <= self.upper_arm_length <= LIMIT
        &&& 0 <= self.collarbone_length <= LIMIT
        &&& 0 <= self.sternum_width <= LIMIT
        &&& 0 <= self.hip_width <= LIMIT
        &&& -LIMIT <= self.sternum_height_in_torso <= LIMIT
        &&& -LIMIT <= self.neck_root_height_in_torso <= LIMIT
        &&& -LIMIT <= self.lower_back_height_in_torso <= LIMIT
        &&& -LIMIT <= self.lower_back_height_in_pelvis <= LIMIT
        &&& -LIMIT <= self.hip_height_in_pelvis <= LIMIT
        &&& 0 <= self.upper_leg_length <= LIMIT
        &&& 0 <= self.lower_leg_length <= LIMIT
        &&& -LIMIT <= self.ankle_height <= LIMIT
    }

    /// Tells whether the measures are well formed.
    pub fn is_wf(&self) -> (b: bool)
        ensures
            b == self.wf(),
    {
        0 <= self.lower_arm_length && self.lower_arm_length <= LIMIT && 0
            <= self.upper_arm_length && self.upper_arm_length <= LIMIT && 0
            <= self.collarbone_length && self.collarbone_length <= LIMIT && 0
            <= self.sternum_width && self.sternum_width <= LIMIT && 0 <= self.hip_width
            && self.hip_width <= LIMIT && -LIMIT <= self.sternum_height_in_torso
            && self.sternum_height_in_torso <= LIMIT && -LIMIT <= self.neck_root_height_in_torso
            && self.neck_root_height_in_torso <= LIMIT && -LIMIT
            <= self.lower_back_height_in_torso && self.lower_back_height_in_torso <= LIMIT
            && -LIMIT <= self.lower_back_height_in_pelvis && self.lower_back_height_in_pelvis
            <= LIMIT && -LIMIT <= self.hip_height_in_pelvis && self.hip_height_in_pelvis <= LIMIT
            && 0 <= self.upper_leg_length && self.upper_leg_length <= LIMIT && 0
            <= self.lower_leg_length && self.lower_leg_length <= LIMIT && -LIMIT
            <= self.ankle_height && self.ankle_height <= LIMIT
    }

    /// The measures of a grown body.
    pub fn standard() -> (a: Anatomy)
        ensures
            a.wf(),
            a.lower_arm_length == 280_000_000,
            a.upper_arm_length == 280_000_000,
            a.collarbone_length == 170_000_000,
            a.sternum_width == 60_000_000,
            a.hip_width == 260_000_000,
            a.sternum_height_in_torso == 200_000_000,
            a.neck_root_height_in_torso == 220_000_000,
            a.lower_back_height_in_torso == -200_000_000,
            a.lower_back_height_in_pelvis == 100_000_000,
            a.hip_height_in_pelvis == -70_000_000,
            a.upper_leg_length == 400_000_000,
            a.lower_leg_length == 400_000_000,
            a.ankle_height == 100_000_000,
    {
        Anatomy {
            lower_arm_length: 280_000_000,
            upper_arm_length: 280_000_000,
            collarbone_length: 170_000_000,
            sternum_width: 60_000_000,
            hip_width: 260_000_000,
            sternum_height_in_torso: 200_000_000,
            neck_root_height_in_torso: 220_000_000,
            lower_back_height_in_torso: -200_000_000,
            lower_back_height_in_pelvis: 100_000_000,
            hip_height_in_pelvis: -70_000_000,
            upper_leg_length: 400_000_000,
            lower_leg_length: 400_000_000,
            ankle_height: 100_000_000,
        }
    }
}

/// A point on the depth axis of a body.
pub open spec fn along_z(z: int) -> V3 {
    V3 { x: 0, y: 0, z: z }
}

/// A point on the height axis of a body.
pub open spec fn along_y(y: int) -> V3 {
    V3 { x: 0, y: y, z: 0 }
}

/// A ball joint between two bodies.
pub open spec fn joint(a: Landmark, b: Landmark, pa: V3, pb: V3) -> SphericalModel {
    SphericalModel { body_a: a, body_b: b, point_in_a: pa, point_in_b: pb }
}

/// The twelve ball joints of the skeleton, in the order in which they are
/// projected: wrists, elbows, neck, lower back, hips, knees, ankles, the
/// left one of a pair first. A limb is jointed at both ends, half its length
/// from its centre.
pub open spec fn skeleton_joints(o: DriverOffsets, a: Anatomy) -> Seq<SphericalModel> {
    let wrist = along_z(-(a.lower_arm_length / 2));
    let elbow_low = along_z(a.lower_arm_length / 2);
    let elbow_up = along_z(-(a.upper_arm_length / 2));
    let hip = along_y(a.upper_leg_length / 2);
    let knee_up = along_y(-(a.upper_leg_length / 2));
    let knee_low = along_y(a.lower_leg_length / 2);
    let ankle_low = along_y(-(a.lower_leg_length / 2));
    let ankle = along_y(a.ankle_height as int);
    seq![
        joint(Landmark::LeftPalm, Landmark::LeftLowerArm, o.left_wrist_in_palm@, wrist),
        joint(
            Landmark::RightPalm,
            Landmark::RightLowerArm,
            mirrored(o.left_wrist_in_palm@),
            wrist,
        ),
        joint(Landmark::LeftLowerArm, Landmark::LeftUpperArm, elbow_low, elbow_up),
        joint(Landmark::RightLowerArm, Landmark::RightUpperArm, elbow_low, elbow_up),
        joint(
            Landmark::HeadCenter,
            Landmark::Torso,
            o.neck_root_in_head_center@,
            along_y(a.neck_root_height_in_torso as int),
        ),
        joint(
            Landmark::Torso,
            Landmark::Pelvis,
            along_y(a.lower_back_height_in_torso as int),
            along_y(a.lower_back_height_in_pelvis as int),
        ),
        joint(
            Landmark::Pelvis,
            Landmark::LeftUpperLeg,
            V3 { x: -(a.hip_width / 2), y: a.hip_height_in_pelvis as int, z: 0 },
            hip,
        ),
        joint(
            Landmark::Pelvis,
            Landmark::RightUpperLeg,
            V3 { x: a.hip_width / 2, y: a.hip_height_in_pelvis as int, z: 0 },
            hip,
        ),
        joint(Landmark::LeftUpperLeg, Landmark::LeftLowerLeg, knee_up, knee_low),
        joint(Landmark::RightUpperLeg, Landmark::RightLowerLeg, knee_up, knee_low),
        joint(Landmark::LeftLowerLeg, Landmark::LeftFoot, ankle_low, ankle),
        joint(Landmark::RightLowerLeg, Landmark::RightFoot, ankle_low, ankle),
    ]
}

/// The two collarbones: each holds the shoulder end of an upper arm at the
/// collarbone's length from its side of the sternum, the left one first.
pub open spec fn skeleton_links(a: Anatomy) -> Seq<DistanceModel> {
    let shoulder = along_z(a.upper_arm_length / 2);
    seq![
        DistanceModel {
            body_a: Landmark::LeftUpperArm,
            body_b: Landmark::Torso,
            point_in_a: shoulder,
            point_in_b: V3 {
                x: -(a.sternum_width / 2),
                y: a.sternum_height_in_torso as int,
                z: 0,
            },
            rest_distance: a.collarbone_length as int,
        },
        DistanceModel {
            body_a: Landmark::RightUpperArm,
            body_b: Landmark::Torso,
            point_in_a: shoulder,
            point_in_b: V3 { x: a.sternum_width / 2, y: a.sternum_height_in_torso as int, z: 0 },
            rest_distance: a.collarbone_length as int,
        },
    ]
}

/// Builds the ball joints of the skeleton.
pub fn build_joints(o: &DriverOffsets, a: &Anatomy) -> (cs: Vec<SphericalConstraint>)
    requires
        o.wf(),
        a.wf(),
    ensures
        cs.len() == 12,
        forall|i: int| 0 <= i < 12 ==> (#[trigger] cs[i])@ == skeleton_joints(*o, *a)[i],
        forall|i: int| 0 <= i < 12 ==> (#[trigger] cs[i]).wf(),
{
    let wrist = Vec3 { x: 0, y: 0, z: -(a.lower_arm_length / 2) };
    let elbow_low = Vec3 { x: 0, y: 0, z: a.lower_arm_length / 2 };
    let elbow_up = Vec3 { x: 0, y: 0, z: -(a.upper_arm_length / 2) };
    let hip = Vec3 { x: 0, y: a.upper_leg_length / 2, z: 0 };
    let knee_up = Vec3 { x: 0, y: -(a.upper_leg_length / 2), z: 0 };
    let knee_low = Vec3 { x: 0, y: a.lower_leg_length / 2, z: 0 };
    let ankle_low = Vec3 { x: 0, y: -(a.lower_leg_length / 2), z: 0 };
    let ankle = Vec3 { x: 0, y: a.ankle_height, z: 0 };
    let w: Vec3 = o.left_wrist_in_palm;
    let right_wrist = Vec3 { x: -w.x, y: w.y, z: w.z };
    let left_hip = Vec3 { x: -(a.hip_width / 2), y: a.hip_height_in_pelvis, z: 0 };
    let cs = vec![
        SphericalConstraint {
            body_a: Landmark::LeftPalm,
            body_b: Landmark::LeftLowerArm,
            point_in_a: w,
            point_in_b: wrist,
        },
        SphericalConstraint {
            body_a: Landmark::RightPalm,
            body_b: Landmark::RightLowerArm,
            point_in_a: right_wrist,
            point_in_b: wrist,
        },
        SphericalConstraint {
            body_a: Landmark::LeftLowerArm,
            body_b: Landmark::LeftUpperArm,
            point_in_a: elbow_low,
            point_in_b: elbow_up,
        },
        SphericalConstraint {
            body_a: Landmark::RightLowerArm,
            body_b: Landmark::RightUpperArm,
            point_in_a: elbow_low,
            point_in_b: elbow_up,
        },
        SphericalConstraint {
            body_a: Landmark::HeadCenter,
            body_b: Landmark::Torso,
            point_in_a: o.neck_root_in_head_center,
            point_in_b: Vec3 { x: 0, y: a.neck_root_height_in_torso, z: 0 },
        },
        SphericalConstraint {
            body_a: Landmark::Torso,
            body_b: Landmark::Pelvis,
            point_in_a: Vec3 { x: 0, y: a.lower_back_height_in_torso, z: 0 },
            point_in_b: Vec3 { x: 0, y: a.lower_back_height_in_pelvis, z: 0 },
        },
        SphericalConstraint {
            body_a: Landmark::Pelvis,
            body_b: Landmark::LeftUpperLeg,
            point_in_a: left_hip,
            point_in_b: hip,
        },
        SphericalConstraint {
            body_a: Landmark::Pelvis,
            body_b: Landmark::RightUpperLeg,
            point_in_a: Vec3 { x: a.hip_width / 2, y: a.hip_height_in_pelvis, z: 0 },
            point_in_b: hip,
        },
        SphericalConstraint {
            body_a: Landmark::LeftUpperLeg,
            body_b: Landmark::LeftLowerLeg,
            point_in_a: knee_up,
            point_in_b: knee_low,
        },
        SphericalConstraint {
            body_a: Landmark::RightUpperLeg,
            body_b: Landmark::RightLowerLeg,
            point_in_a: knee_up,
            point_in_b: knee_low,
        },
        SphericalConstraint {
            body_a: Landmark::LeftLowerLeg,
            body_b: Landmark::LeftFoot,
            point_in_a: ankle_low,
            point_in_b: ankle,
        },
        SphericalConstraint {
            body_a: Landmark::RightLowerLeg,
            body_b: Landmark::RightFoot,
            point_in_a: ankle_low,
            point_in_b: ankle,
        },
    ];
    cs
}

/// Builds the collarbones of the skeleton.
pub fn build_links(a: &Anatomy) -> (cs: Vec<DistanceConstraint>)
    requires
        a.wf(),
    ensures
        cs.len() == 2,
        forall|i: int| 0 <= i < 2 ==> (#[trigger] cs[i])@ == skeleton_links(*a)[i],
        forall|i: int| 0 <= i < 2 ==> (#[trigger] cs[i]).wf(),
{
    let shoulder = Vec3 { x: 0, y: 0, z: a.upper_arm_length / 2 };
    let left_sternum = Vec3 { x: -(a.sternum_width / 2), y: a.sternum_height_in_torso, z: 0 };
    let cs = vec![
        DistanceConstraint {
            body_a: Landmark::LeftUpperArm,
            body_b: Landmark::Torso,
            point_in_a: shoulder,
            point_in_b: left_sternum,
            rest_distance: a.collarbone_length,
        },
        DistanceConstraint {
            body_a: Landmark::RightUpperArm,
            body_b: Landmark::Torso,
            point_in_a: shoulder,
            point_in_b: Vec3 { x: a.sternum_width / 2, y: a.sternum_height_in_torso, z: 0 },
            rest_distance: a.collarbone_length,
        },
    ];
    cs
}

} // verus!
