//! Constraints between two bodies and their projection onto a pose.
//!
//! A projection moves the two bodies so that the constraint's error shrinks:
//! each body is weighted as a unit mass with unit inertia, corrected at its
//! lever arm, and turned by the first-order rotation that the correction
//! induces. Both constraints leave the weights of the bodies alone, so that
//! a driven body yields like any other and is put back by the next seeding.

use crate::fixed::{
    lemma_product_bound, lemma_trunc_div_at_most, magnitude, product, quotient, trunc_div, LIMIT,
    ONE,
};
use crate::frame::{Frame, FrameModel};
use crate::landmark::Landmark;
use crate::pose::{PoseModel, SkeletonPose};
use crate::vec3::{lemma_cross_bound, lemma_norm_sq_bound, Vec3, V3};
use vstd::prelude::*;

verus! {

/// Shortest separation at which a distance constraint still has a direction
/// to correct along: a millionth of a unit.
pub const MIN_SEPARATION: i64 = 1_000;

/// A ball joint over the integers: what a `SphericalConstraint` stands for.
pub struct SphericalModel {
    pub body_a: Landmark,
    pub body_b: Landmark,
    pub point_in_a: V3,
    pub point_in_b: V3,
}

/// A fixed distance over the integers: what a `DistanceConstraint` stands for.
pub struct DistanceModel {
    pub body_a: Landmark,
    pub body_b: Landmark,
    pub point_in_a: V3,
    pub point_in_b: V3,
    pub rest_distance: int,
}

/// A ball joint: a point of body A and a point of body B, each given in its
/// body's own axes, that are to coincide.
#[derive(Clone, Copy, Debug, PartialEq, Eq, Structural)]
pub struct SphericalConstraint {
    pub body_a: Landmark,
    pub body_b: Landmark,
    pub point_in_a: Vec3,
    pub point_in_b: Vec3,
}

/// A fixed distance: a point of body A and a point of body B that are to lie
/// `rest_distance` apart.
#[derive(Clone, Copy, Debug, PartialEq, Eq, Structural)]
pub struct DistanceConstraint {
    pub body_a: Landmark,
    pub body_b: Landmark,
    pub point_in_a: Vec3,
    pub point_in_b: Vec3,
    pub rest_distance: i64,
}

impl View for SphericalConstraint {
    type V = SphericalModel;

    open spec fn view(&self) -> SphericalModel {
        SphericalModel {
            body_a: self.body_a,
            body_b: self.body_b,
            point_in_a: self.point_in_a@,
            point_in_b: self.point_in_b@,
        }
    }
}

impl View for DistanceConstraint {
    type V = DistanceModel;

    open spec fn view(&self) -> DistanceModel {
        DistanceModel {
            body_a: self.body_a,
            body_b: self.body_b,
            point_in_a: self.point_in_a@,
            point_in_b: self.point_in_b@,
            rest_distance: self.rest_distance as int,
        }
    }
}

impl SphericalConstraint {
    /// Both attachment points are stored vectors.
    pub open spec fn wf(&self) -> bool {
        self.point_in_a.stored() && self.point_in_b.stored()
    }

    /// Tells whether the constraint is well formed.
    pub fn is_wf(&self) -> (b: bool)
        ensures
            b == self.wf(),
    {
        self.point_in_a.is_stored() && self.point_in_b.is_stored()
    }
}

impl DistanceConstraint {
    /// Both attachment points are stored vectors and the rest distance is a
    /// stored length.
    pub open spec fn wf(&self) -> bool {
        self.point_in_a.stored() && self.point_in_b.stored() && 0 <= self.rest_distance <= LIMIT
    }

    /// Tells whether the constraint is well formed.
    pub fn is_wf(&self) -> (b: bool)
        ensures
            b == self.wf(),
    {
        self.point_in_a.is_stored() && self.point_in_b.is_stored() && 0 <= self.rest_distance
            && self.rest_distance <= LIMIT
    }
}

/// Weight of a unit body against a correction at the lever arm `arm`, by
/// axis: one for the mass, and the squared arm across the axis for the
/// inertia.
pub open spec fn lever_weights(arm: V3) -> V3 {
    V3 {
        x: ONE + (arm.y * arm.y + arm.z * arm.z) / (ONE as int),
        y: ONE + (arm.z * arm.z + arm.x * arm.x) / (ONE as int),
        z: ONE + (arm.x * arm.x + arm.y * arm.y) / (ONE as int),
    }
}

/// Where the attachment point of body A lies from that of body B, in the
/// world: the error of a ball joint.
pub open spec fn attachment_gap(a: FrameModel, arm_a: V3, b: FrameModel, arm_b: V3) -> V3 {
    a.position.plus(arm_a).minus(b.position.plus(arm_b))
}

/// Correction of body A for a ball joint with error `gap`: the error shared
/// out by the two weights, against the error. Body B takes the opposite.
pub open spec fn spherical_correction(gap: V3, wa: V3, wb: V3) -> V3 {
    V3 {
        x: trunc_div(-gap.x * ONE, wa.x + wb.x),
        y: trunc_div(-gap.y * ONE, wa.y + wb.y),
        z: trunc_div(-gap.z * ONE, wa.z + wb.z),
    }
}

/// Correction of body A for a fixed distance: the surplus of the separation
/// over `rest`, shared out by the two weights, along the separation. Points
/// closer than `MIN_SEPARATION` give no direction and are left alone.
pub open spec fn distance_correction(gap: V3, rest: int, wa: V3, wb: V3) -> V3 {
    let len = gap.length();
    if len < MIN_SEPARATION {
        V3::zero()
    } else {
        V3 {
            x: trunc_div(-((len - rest) * gap.x) * ONE, (wa.x + wb.x) * len),
            y: trunc_div(-((len - rest) * gap.y) * ONE, (wa.y + wb.y) * len),
            z: trunc_div(-((len - rest) * gap.z) * ONE, (wa.z + wb.z) * len),
        }
    }
}

/// The pose with landmark `i` moved to `p`.
pub open spec fn with_position(pose: PoseModel, i: int, p: V3) -> PoseModel {
    pose.update(i, FrameModel { position: p, orientation: pose[i].orientation })
}

/// The pose with landmark `i` turned by the small rotation `omega`.
pub open spec fn with_turn(pose: PoseModel, i: int, omega: V3) -> PoseModel {
    pose.update(
        i,
        FrameModel { position: pose[i].position, orientation: pose[i].orientation.turned(omega) },
    )
}

/// The pose after body `a` has taken the correction `corr` at its lever arm
/// `arm_a` and body `b` the opposite at `arm_b`: first the two positions,
/// then the two orientations.
pub open spec fn corrected(
    pose: PoseModel,
    a: Landmark,
    b: Landmark,
    arm_a: V3,
    arm_b: V3,
    corr: V3,
) -> PoseModel {
    let ia = a.ordinal();
    let ib = b.ordinal();
    let s1 = with_position(pose, ia, pose[ia].position.plus(corr).confined());
    let s2 = with_position(s1, ib, s1[ib].position.minus(corr).confined());
    let s3 = with_turn(s2, ia, arm_a.cross(corr));
    with_turn(s3, ib, arm_b.cross(corr).negated())
}

/// Error of a ball joint in a pose: where its point of body A lies from its
/// point of body B, in the world.
pub open spec fn spherical_error(pose: PoseModel, c: SphericalModel) -> V3 {
    let a = pose[c.body_a.ordinal()];
    let b = pose[c.body_b.ordinal()];
    attachment_gap(
        a,
        a.orientation.rotate(c.point_in_a),
        b,
        b.orientation.rotate(c.point_in_b),
    )
}

/// Error of a fixed distance in a pose: the surplus of the separation of its
/// two points over the rest distance.
pub open spec fn distance_error(pose: PoseModel, c: DistanceModel) -> int {
    let a = pose[c.body_a.ordinal()];
    let b = pose[c.body_b.ordinal()];
    attachment_gap(
        a,
        a.orientation.rotate(c.point_in_a),
        b,
        b.orientation.rotate(c.point_in_b),
    ).length() - c.rest_distance
}

/// The pose after one projection of a ball joint.
pub open spec fn spherical_step(pose: PoseModel, c: SphericalModel) -> PoseModel {
    let a = pose[c.body_a.ordinal()];
    let b = pose[c.body_b.ordinal()];
    let arm_a = a.orientation.rotate(c.point_in_a);
    let arm_b = b.orientation.rotate(c.point_in_b);
    let gap = attachment_gap(a, arm_a, b, arm_b);
    let corr = spherical_correction(gap, lever_weights(arm_a), lever_weights(arm_b));
    corrected(pose, c.body_a, c.body_b, arm_a, arm_b, corr)
}

/// The pose after one projection of a fixed distance.
pub open spec fn distance_step(pose: PoseModel, c: DistanceModel) -> PoseModel {
    let a = pose[c.body_a.ordinal()];
    let b = pose[c.body_b.ordinal()];
    let arm_a = a.orientation.rotate(c.point_in_a);
    let arm_b = b.orientation.rotate(c.point_in_b);
    let gap = attachment_gap(a, arm_a, b, arm_b);
    let corr = distance_correction(
        gap,
        c.rest_distance,
        lever_weights(arm_a),
        lever_weights(arm_b),
    );
    corrected(pose, c.body_a, c.body_b, arm_a, arm_b, corr)
}

/// Largest weight of a lever arm within four times the coordinate limit.
pub const WEIGHT_MAX: i64 = 32_000_001_000_000_000;

/// One weight: one plus the sum of two squares over `ONE`.
fn lever_weight(p: i64, q: i64) -> (w: i64)
    requires
        -4 * LIMIT <= p <= 4 * LIMIT,
        -4 * LIMIT <= q <= 4 * LIMIT,
    ensures
        w == ONE + (p * p + q * q) / (ONE as int),
        ONE <= w <= WEIGHT_MAX,
{
    proof {
        lemma_product_bound(p as int, p as int, 4_000_000_000_000, 4_000_000_000_000);
        lemma_product_bound(q as int, q as int, 4_000_000_000_000, 4_000_000_000_000);
        assert(p * p >= 0 && q * q >= 0) by (nonlinear_arith);
        lemma_trunc_div_at_most(p * p + q * q, ONE as int, 32_000_000_000_000_000);
    }
    let s: i128 = product(p, p) + product(q, q);
    let d: i128 = quotient(s, ONE as i128);
    ONE + (d as i64)
}

/// The weights of a lever arm.
fn lever_weights_of(arm: Vec3) -> (w: Vec3)
    requires
        arm@.within(4 * LIMIT),
    ensures
        w@ == lever_weights(arm@),
        ONE <= w.x <= WEIGHT_MAX,
        ONE <= w.y <= WEIGHT_MAX,
        ONE <= w.z <= WEIGHT_MAX,
{
    Vec3 {
        x: lever_weight(arm.y, arm.z),
        y: lever_weight(arm.z, arm.x),
        z: lever_weight(arm.x, arm.y),
    }
}

/// One component of the correction of a ball joint.
fn spherical_component(g: i64, w: i64) -> (c: i64)
    requires
        -10 * LIMIT <= g <= 10 * LIMIT,
        2 * ONE <= w <= 2 * WEIGHT_MAX,
    ensures
        c == trunc_div(-g * ONE, w as int),
        -5 * LIMIT <= c <= 5 * LIMIT,
{
    proof {
        lemma_trunc_div_at_most(-g * ONE, w as int, 5_000_000_000_000);
    }
    let n: i128 = product(-g, ONE);
    quotient(n, w as i128) as i64
}

/// The correction of body A for a ball joint.
fn spherical_correction_of(gap: Vec3, wa: Vec3, wb: Vec3) -> (c: Vec3)
    requires
        gap@.within(10 * LIMIT),
        wa@.within(WEIGHT_MAX as int),
        wb@.within(WEIGHT_MAX as int),
        ONE <= wa.x && ONE <= wa.y && ONE <= wa.z,
        ONE <= wb.x && ONE <= wb.y && ONE <= wb.z,
    ensures
        c@ == spherical_correction(gap@, wa@, wb@),
        c@.within(5 * LIMIT),
{
    Vec3 {
        x: spherical_component(gap.x, wa.x + wb.x),
        y: spherical_component(gap.y, wa.y + wb.y),
        z: spherical_component(gap.z, wa.z + wb.z),
    }
}

/// The dividend of a distance correction is at most `m` divisors.
proof fn lemma_distance_dividend(c: int, g: int, w: int, len: int, m: int)
    by (nonlinear_arith)
    requires
        -m <= c <= m,
        -len <= g <= len,
        2_000_000_000 <= w,
        0 < len,
    ensures
        -(m * (w * len)) <= -(c * g) * 1_000_000_000 <= m * (w * len),
        0 < w * len,
{
    assert(-(m * len) <= c * g <= m * len);
    assert(m * len * 2_000_000_000 <= m * (w * len));
}

/// One component of the correction of a fixed distance.
fn distance_component(surplus: i64, g: i64, w: i64, len: i64) -> (c: i64)
    requires
        -18 * LIMIT <= surplus <= 18 * LIMIT,
        -len <= g <= len,
        0 < len <= 18 * LIMIT,
        2 * ONE <= w <= 2 * WEIGHT_MAX,
    ensures
        c == trunc_div(-(surplus * g) * ONE, w * len),
        -18 * LIMIT <= c <= 18 * LIMIT,
{
    proof {
        lemma_distance_dividend(
            surplus as int,
            g as int,
            w as int,
            len as int,
            18_000_000_000_000,
        );
        lemma_product_bound(surplus as int, g as int, 18_000_000_000_000, 18_000_000_000_000);
        lemma_product_bound(w as int, len as int, 64_000_002_000_000_000, 18_000_000_000_000);
        assert(magnitude(w * len) == w * len);
        lemma_trunc_div_at_most(-(surplus * g) * ONE, w * len, 18_000_000_000_000);
    }
    let n: i128 = -product(surplus, g) * (ONE as i128);
    let d: i128 = product(w, len);
    quotient(n, d) as i64
}

/// The correction of body A for a fixed distance.
fn distance_correction_of(gap: Vec3, rest: i64, wa: Vec3, wb: Vec3) -> (c: Vec3)
    requires
        gap@.within(10 * LIMIT),
        0 <= rest <= LIMIT,
        wa@.within(WEIGHT_MAX as int),
        wb@.within(WEIGHT_MAX as int),
        ONE <= wa.x && ONE <= wa.y && ONE <= wa.z,
        ONE <= wb.x && ONE <= wb.y && ONE <= wb.z,
    ensures
        c@ == distance_correction(gap@, rest as int, wa@, wb@),
        c@.within(18 * LIMIT),
{
    let len: i64 = gap.length();
    if len < MIN_SEPARATION {
        return Vec3::zero();
    }
    proof {
        let s = gap@.norm_sq();
        lemma_norm_sq_bound(gap@, 10_000_000_000_000);
        crate::fixed::lemma_floor_sqrt_at_most(len as int, s, 17_999_999_999_999);
        assert(gap.x * gap.x >= 0 && gap.y * gap.y >= 0 && gap.z * gap.z >= 0)
            by (nonlinear_arith);
        crate::fixed::lemma_root_bounds_component(gap.x as int, s, len as int);
        crate::fixed::lemma_root_bounds_component(gap.y as int, s, len as int);
        crate::fixed::lemma_root_bounds_component(gap.z as int, s, len as int);
    }
    let surplus: i64 = len - rest;
    Vec3 {
        x: distance_component(surplus, gap.x, wa.x + wb.x, len),
        y: distance_component(surplus, gap.y, wa.y + wb.y, len),
        z: distance_component(surplus, gap.z, wa.z + wb.z, len),
    }
}

/// Lets body `a` take the correction `corr` at its lever arm and body `b` the
/// opposite.
fn apply_correction(
    pose: &mut SkeletonPose,
    a: Landmark,
    b: Landmark,
    arm_a: Vec3,
    arm_b: Vec3,
    corr: Vec3,
)
    requires
        old(pose).wf(),
        arm_a@.within(4 * LIMIT),
        arm_b@.within(4 * LIMIT),
        corr@.within(18 * LIMIT),
    ensures
        final(pose)@ == corrected(old(pose)@, a, b, arm_a@, arm_b@, corr@),
        final(pose).wf(),
{
    proof {
        lemma_cross_bound(
            arm_a@,
            corr@,
            4_000_000_000_000,
            18_000_000_000_000,
            144_000_000_000_000_000,
        );
        lemma_cross_bound(
            arm_b@,
            corr@,
            4_000_000_000_000,
            18_000_000_000_000,
            144_000_000_000_000_000,
        );
    }
    let fa: Frame = pose.frame(a);
    pose.set_frame(
        a,
        Frame { position: fa.position.plus_confined(corr), orientation: fa.orientation },
    );
    let fb: Frame = pose.frame(b);
    pose.set_frame(
        b,
        Frame { position: fb.position.minus_confined(corr), orientation: fb.orientation },
    );
    let ta: Frame = pose.frame(a);
    let omega_a: Vec3 = arm_a.cross(corr);
    pose.set_frame(
        a,
        Frame { position: ta.position, orientation: ta.orientation.turned(omega_a) },
    );
    let tb: Frame = pose.frame(b);
    let omega_b: Vec3 = arm_b.cross(corr).negated();
    pose.set_frame(
        b,
        Frame { position: tb.position, orientation: tb.orientation.turned(omega_b) },
    );
}

/// Projects a ball joint onto the pose: moves and turns its two bodies so
/// that the attachment points come together.
pub fn project_spherical(pose: &mut SkeletonPose, c: &SphericalConstraint)
    requires
        old(pose).wf(),
        c.wf(),
    ensures
        final(pose)@ == spherical_step(old(pose)@, c@),
        final(pose).wf(),
{
    let a: Frame = pose.frame(c.body_a);
    let b: Frame = pose.frame(c.body_b);
    let arm_a: Vec3 = a.orientation.rotate(c.point_in_a);
    let arm_b: Vec3 = b.orientation.rotate(c.point_in_b);
    let gap: Vec3 = a.position.plus(arm_a).minus(b.position.plus(arm_b));
    let corr: Vec3 = spherical_correction_of(
        gap,
        lever_weights_of(arm_a),
        lever_weights_of(arm_b),
    );
    apply_correction(pose, c.body_a, c.body_b, arm_a, arm_b, corr);
}

/// Projects a fixed distance onto the pose: moves and turns its two bodies
/// along their separation so that it comes to the rest distance.
pub fn project_distance(pose: &mut SkeletonPose, c: &DistanceConstraint)
    requires
        old(pose).wf(),
        c.wf(),
    ensures
        final(pose)@ == distance_step(old(pose)@, c@),
        final(pose).wf(),
{
    let a: Frame = pose.frame(c.body_a);
    let b: Frame = pose.frame(c.body_b);
    let arm_a: Vec3 = a.orientation.rotate(c.point_in_a);
    let arm_b: Vec3 = b.orientation.rotate(c.point_in_b);
    let gap: Vec3 = a.position.plus(arm_a).minus(b.position.plus(arm_b));
    let corr: Vec3 = distance_correction_of(
        gap,
        c.rest_distance,
        lever_weights_of(arm_a),
        lever_weights_of(arm_b),
    );
    apply_correction(pose, c.body_a, c.body_b, arm_a, arm_b, corr);
}

impl SphericalConstraint {
    /// Error of the joint in a pose: where its point of body A lies from its
    /// point of body B, in the world.
    pub fn error(&self, pose: &SkeletonPose) -> (e: Vec3)
        requires
            pose.wf(),
            self.wf(),
        ensures
            e@ == spherical_error(pose@, self@),
            e@.within(10 * LIMIT),
    {
        let a: Frame = pose.frame(self.body_a);
        let b: Frame = pose.frame(self.body_b);
        let arm_a: Vec3 = a.orientation.rotate(self.point_in_a);
        let arm_b: Vec3 = b.orientation.rotate(self.point_in_b);
        a.position.plus(arm_a).minus(b.position.plus(arm_b))
    }
}

impl DistanceConstraint {
    /// Error of the constraint in a pose: the surplus of the separation of
    /// its two points over the rest distance.
    pub fn error(&self, pose: &SkeletonPose) -> (e: i64)
        requires
            pose.wf(),
            self.wf(),
        ensures
            e == distance_error(pose@, self@),
    {
        let a: Frame = pose.frame(self.body_a);
        let b: Frame = pose.frame(self.body_b);
        let arm_a: Vec3 = a.orientation.rotate(self.point_in_a);
        let arm_b: Vec3 = b.orientation.rotate(self.point_in_b);
        let gap: Vec3 = a.position.plus(arm_a).minus(b.position.plus(arm_b));
        let len: i64 = gap.length();
        proof {
            lemma_norm_sq_bound(gap@, 10_000_000_000_000);
            crate::fixed::lemma_floor_sqrt_at_most(
                len as int,
                gap@.norm_sq(),
                17_999_999_999_999,
            );
        }
        len - self.rest_distance
    }
}

} // verus!
