//! The driven frames of a tick: what tracking and the stance dictate.
//!
//! The head centre and the neck root hang at fixed offsets from the headset.
//! The base frame stands upright below the neck root and looks where the
//! neck looks. A palm sits at its grip and points where its aim points, and
//! the wrist hangs at a fixed offset from the palm.

use crate::fixed::{
    floor_sqrt, isqrt, lemma_floor_sqrt_at_least, lemma_floor_sqrt_at_most, lemma_product_bound,
    lemma_trunc_div_at_most, magnitude, product, quotient, trunc_div, LIMIT, ONE, WIDE,
};
use crate::frame::{Frame, FrameModel};
use crate::locomotion::{Stance, StanceModel};
use crate::quat::{Quat, Q4};
use crate::solver::{DrivenFrames, DrivenModel};
use crate::vec3::{Vec3, V3};
use vstd::prelude::*;

verus! {

/// Shortest horizontal part of the forward axis that still gives a heading:
/// a millionth of a unit.
pub const MIN_HEADING: i64 = 1_000;

/// The five frames that tracking supplies each tick, in the stage.
#[derive(Clone, Copy, Debug, PartialEq, Eq, Structural)]
pub struct TrackingInput {
    pub hmd: Frame,
    pub left_grip: Frame,
    pub left_aim: Frame,
    pub right_grip: Frame,
    pub right_aim: Frame,
}

impl TrackingInput {
    /// Every tracked frame is well formed.
    pub open spec fn wf(&self) -> bool {
        self.hmd.wf() && self.left_grip.wf() && self.left_aim.wf() && self.right_grip.wf()
            && self.right_aim.wf()
    }

    /// Tells whether every tracked frame is well formed.
    pub fn is_wf(&self) -> (b: bool)
        ensures
            b == self.wf(),
    {
        self.hmd.is_wf() && self.left_grip.is_wf() && self.left_aim.is_wf()
            && self.right_grip.is_wf() && self.right_aim.is_wf()
    }
}

/// The fixed offsets between the driven landmarks.
#[derive(Clone, Copy, Debug, PartialEq, Eq, Structural)]
pub struct DriverOffsets {
    /// The head centre, seen from the headset.
    pub head_center_in_hmd: Vec3,
    /// The neck root, seen from the head centre.
    pub neck_root_in_head_center: Vec3,
    /// The left wrist, seen from the left palm; the right one is its mirror
    /// image.
    pub left_wrist_in_palm: Vec3,
    /// How far to the side of the base origin a foot stands before its first
    /// step.
    pub stance_half_width: i64,
}

impl DriverOffsets {
    /// Every offset is a stored vector, and the stance width a stored length.
    pub open spec fn wf(&self) -> bool {
        self.head_center_in_hmd.stored() && self.neck_root_in_head_center.stored()
            && self.left_wrist_in_palm.stored() && 0 <= self.stance_half_width <= LIMIT
    }

    /// Tells whether the offsets are well formed.
    pub fn is_wf(&self) -> (b: bool)
        ensures
            b == self.wf(),
    {
        self.head_center_in_hmd.is_stored() && self.neck_root_in_head_center.is_stored()
            && self.left_wrist_in_palm.is_stored() && 0 <= self.stance_half_width
            && self.stance_half_width <= LIMIT
    }

    /// The offsets of a grown body: the head centre a tenth behind the
    /// headset, the neck root a tenth below it, the feet a fifth to each side.
    pub fn standard() -> (o: DriverOffsets)
        ensures
            o.wf(),
            o.head_center_in_hmd@ == (V3 { x: 0, y: 0, z: 100_000_000 }),
            o.neck_root_in_head_center@ == (V3 { x: 0, y: -100_000_000, z: 0 }),
            o.left_wrist_in_palm@ == (V3 { x: -15_000_000, y: -10_000_000, z: 65_000_000 }),
            o.stance_half_width == 200_000_000,
    {
        DriverOffsets {
            head_center_in_hmd: Vec3 { x: 0, y: 0, z: 100_000_000 },
            neck_root_in_head_center: Vec3 { x: 0, y: -100_000_000, z: 0 },
            left_wrist_in_palm: Vec3 { x: -15_000_000, y: -10_000_000, z: 65_000_000 },
            stance_half_width: 200_000_000,
        }
    }
}

/// The mirror image of a vector, left for right.
pub open spec fn mirrored(v: V3) -> V3 {
    V3 { x: -v.x, y: v.y, z: v.z }
}

/// The rotation about the vertical whose sine is `s` and whose cosine is
/// `c`, both over `ONE`: the half angle is taken on the side where the
/// square root is well away from zero.
pub open spec fn yaw(s: int, c: int) -> Q4 {
    if c >= 0 {
        let w = floor_sqrt((ONE * (ONE + c)) / 2);
        Q4 { x: 0, y: trunc_div(s * ONE, 2 * w), z: 0, w: w }
    } else {
        let m = floor_sqrt((ONE * (ONE - c)) / 2);
        Q4 {
            x: 0,
            y: if s < 0 {
                -m
            } else {
                m
            },
            z: 0,
            w: trunc_div(magnitude(s) * ONE, 2 * m),
        }
    }
}

/// The upright orientation that looks along the horizontal part of
/// `forward`. A forward axis that points straight up or down has no heading
/// and gives the identity.
pub open spec fn heading(forward: V3) -> Q4 {
    let n = floor_sqrt(forward.x * forward.x + forward.z * forward.z);
    if n < MIN_HEADING {
        Q4::identity()
    } else {
        yaw(trunc_div(forward.x * ONE, n), trunc_div(forward.z * ONE, n)).normalized_or(
            Q4::identity(),
        )
    }
}

/// The base frame below a neck root: on the floor under it, upright, its
/// forward axis along the horizontal part of the neck's forward axis.
pub open spec fn base_frame(neck: FrameModel) -> FrameModel {
    FrameModel {
        position: V3 { x: neck.position.x, y: 0, z: neck.position.z },
        orientation: heading(neck.orientation.rotate(V3 { x: 0, y: 0, z: ONE as int })),
    }
}

/// The neck root for a headset frame.
pub open spec fn neck_root(hmd: FrameModel, offsets: DriverOffsets) -> FrameModel {
    hmd.offset(offsets.head_center_in_hmd@).offset(offsets.neck_root_in_head_center@)
}

/// The palm of a hand: at the grip, turned as the aim.
pub open spec fn palm(grip: FrameModel, aim: FrameModel) -> FrameModel {
    FrameModel { position: grip.position, orientation: aim.orientation }
}

/// Where a foot stands at the start of a tick: where the last tick sent it,
/// or, before the first step, to the side of the base origin.
pub open spec fn standing_foot(last: Option<Frame>, base: FrameModel, side: int) -> FrameModel {
    match last {
        Some(f) => f@,
        None => base.offset(V3 { x: side, y: 0, z: 0 }),
    }
}

/// The driven frames of a tick, from the tracked frames, the base frame and
/// the planned stance.
pub open spec fn driven_frames(
    input: TrackingInput,
    offsets: DriverOffsets,
    base: FrameModel,
    stance: StanceModel,
) -> DrivenModel {
    let head_center = input.hmd@.offset(offsets.head_center_in_hmd@);
    let left_palm = palm(input.left_grip@, input.left_aim@);
    let right_palm = palm(input.right_grip@, input.right_aim@);
    DrivenModel {
        hmd: input.hmd@,
        head_center: head_center,
        neck_root: head_center.offset(offsets.neck_root_in_head_center@),
        base: base,
        balance_point: base.offset(stance.balance_point),
        left_aim: input.left_aim@,
        left_grip: input.left_grip@,
        left_palm: left_palm,
        left_wrist: left_palm.offset(offsets.left_wrist_in_palm@),
        left_foot: stance.left_foot,
        right_aim: input.right_aim@,
        right_grip: input.right_grip@,
        right_palm: right_palm,
        right_wrist: right_palm.offset(mirrored(offsets.left_wrist_in_palm@)),
        right_foot: stance.right_foot,
    }
}

/// The rotation about the vertical with the given sine and cosine.
fn yaw_of(s: i64, c: i64) -> (q: Quat)
    requires
        -ONE <= s <= ONE,
        -ONE <= c <= ONE,
    ensures
        q@ == yaw(s as int, c as int),
        q@.within(WIDE as int),
{
    let one: i128 = ONE as i128;
    if c >= 0 {
        let n: i128 = (one * (one + c as i128)) / 2;
        let w: u64 = isqrt(n as u128);
        proof {
            lemma_floor_sqrt_at_least(w as int, n as int, 707_106_781);
            lemma_floor_sqrt_at_most(w as int, n as int, 1_000_000_000);
            lemma_trunc_div_at_most(s * ONE, 2 * w, 1_000_000_000);
        }
        let y: i128 = quotient(product(s, ONE), 2 * (w as i128));
        Quat { x: 0, y: y as i64, z: 0, w: w as i64 }
    } else {
        let n: i128 = (one * (one - c as i128)) / 2;
        let m: u64 = isqrt(n as u128);
        proof {
            lemma_floor_sqrt_at_least(m as int, n as int, 707_106_781);
            lemma_floor_sqrt_at_most(m as int, n as int, 1_000_000_000);
            lemma_trunc_div_at_most(magnitude(s as int) * ONE, 2 * m, 1_000_000_000);
        }
        let a: i64 = if s < 0 {
            -s
        } else {
            s
        };
        let w: i128 = quotient(product(a, ONE), 2 * (m as i128));
        Quat {
            x: 0,
            y: if s < 0 {
                -(m as i64)
            } else {
                m as i64
            },
            z: 0,
            w: w as i64,
        }
    }
}

/// The upright orientation that looks along the horizontal part of `forward`.
pub fn heading_of(forward: Vec3) -> (q: Quat)
    requires
        forward@.within(4 * LIMIT),
    ensures
        q@ == heading(forward@),
        q@.is_unit(),
{
    proof {
        lemma_product_bound(
            forward.x as int,
            forward.x as int,
            4_000_000_000_000,
            4_000_000_000_000,
        );
        lemma_product_bound(
            forward.z as int,
            forward.z as int,
            4_000_000_000_000,
            4_000_000_000_000,
        );
        assert(forward.x * forward.x >= 0 && forward.z * forward.z >= 0) by (nonlinear_arith);
    }
    let sq: i128 = product(forward.x, forward.x) + product(forward.z, forward.z);
    let n: u64 = isqrt(sq as u128);
    if n < MIN_HEADING as u64 {
        return Quat::identity();
    }
    proof {
        lemma_floor_sqrt_at_most(n as int, sq as int, 6_000_000_000_000);
        crate::fixed::lemma_root_bounds_component(forward.x as int, sq as int, n as int);
        crate::fixed::lemma_root_bounds_component(forward.z as int, sq as int, n as int);
        lemma_product_bound(forward.x as int, ONE as int, n as int, ONE as int);
        lemma_product_bound(forward.z as int, ONE as int, n as int, ONE as int);
        assert(n * ONE == ONE * n) by (nonlinear_arith);
        lemma_trunc_div_at_most(forward.x * ONE, n as int, ONE as int);
        lemma_trunc_div_at_most(forward.z * ONE, n as int, ONE as int);
    }
    let s: i128 = quotient(product(forward.x, ONE), n as i128);
    let c: i128 = quotient(product(forward.z, ONE), n as i128);
    yaw_of(s as i64, c as i64).normalized_or(Quat::identity())
}

/// The base frame below a neck root.
pub fn base_frame_of(neck: &Frame) -> (base: Frame)
    requires
        neck.wf(),
    ensures
        base@ == base_frame(neck@),
        base.wf(),
{
    let forward: Vec3 = neck.orientation.rotate(Vec3 { x: 0, y: 0, z: ONE });
    Frame {
        position: Vec3 { x: neck.position.x, y: 0, z: neck.position.z },
        orientation: heading_of(forward),
    }
}

/// The neck root for a headset frame.
pub fn neck_root_of(hmd: &Frame, offsets: &DriverOffsets) -> (neck: Frame)
    requires
        hmd.wf(),
        offsets.wf(),
    ensures
        neck@ == neck_root(hmd@, *offsets),
        neck.wf(),
{
    hmd.offset(offsets.head_center_in_hmd).offset(offsets.neck_root_in_head_center)
}

/// Where a foot stands at the start of a tick.
pub fn standing_foot_of(last: Option<Frame>, base: &Frame, side: i64) -> (f: Frame)
    requires
        base.wf(),
        -LIMIT <= side <= LIMIT,
        last is Some ==> last->0.wf(),
    ensures
        f@ == standing_foot(last, base@, side as int),
        f.wf(),
{
    match last {
        Some(f) => f,
        None => base.offset(Vec3 { x: side, y: 0, z: 0 }),
    }
}

/// The driven frames of a tick.
pub fn resolve_drivers(
    input: &TrackingInput,
    offsets: &DriverOffsets,
    base: &Frame,
    stance: &Stance,
) -> (d: DrivenFrames)
    requires
        input.wf(),
        offsets.wf(),
        base.wf(),
        stance.left_foot.wf(),
        stance.right_foot.wf(),
        stance.balance_point@.within(24 * LIMIT),
    ensures
        d@ == driven_frames(*input, *offsets, base@, stance@),
        d.wf(),
{
    let head_center: Frame = input.hmd.offset(offsets.head_center_in_hmd);
    let left_palm: Frame = Frame {
        position: input.left_grip.position,
        orientation: input.left_aim.orientation,
    };
    let right_palm: Frame = Frame {
        position: input.right_grip.position,
        orientation: input.right_aim.orientation,
    };
    let w: Vec3 = offsets.left_wrist_in_palm;
    DrivenFrames {
        hmd: input.hmd,
        head_center,
        neck_root: head_center.offset(offsets.neck_root_in_head_center),
        base: *base,
        balance_point: base.offset(stance.balance_point),
        left_aim: input.left_aim,
        left_grip: input.left_grip,
        left_palm,
        left_wrist: left_palm.offset(w),
        left_foot: stance.left_foot,
        right_aim: input.right_aim,
        right_grip: input.right_grip,
        right_palm,
        right_wrist: right_palm.offset(Vec3 { x: -w.x, y: w.y, z: w.z }),
        right_foot: stance.right_foot,
    }
}

} // verus!
