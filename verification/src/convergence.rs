//! What the projections and the solver are proved to do.
//!
//! A pose without error is a fixed point of the solver. A ball joint between
//! the centres of two bodies closes in one projection, and a stretched link
//! between two centres comes to its rest distance in one projection. A chain
//! of a driven and a free body halves its error with every pass, whether the
//! two are joined at their centres or linked at them.

use crate::constraint::{
    attachment_gap, corrected, distance_correction, distance_error, distance_step, lever_weights,
    spherical_correction, spherical_error, spherical_step, with_position, with_turn,
    DistanceConstraint, DistanceModel, SphericalConstraint, SphericalModel, MIN_SEPARATION,
};
use crate::fixed::{
    is_floor_sqrt, lemma_floor_sqrt_exists, lemma_trunc_div, lemma_trunc_div_at_most, magnitude,
    trunc_div, ONE,
};
use crate::landmark::{lemma_index_is_dense, Landmark, LANDMARK_COUNT};
use crate::pose::{pose_wf, PoseModel};
use crate::quat::{lemma_rotate_zero, Q4};
use crate::solver::{
    distance_pass, lemma_seeded, pass, relaxed, seeded, solved, spherical_pass, DrivenModel,
};
use crate::vec3::{lemma_cross_of_zero, lemma_norm_sq_bound, V3};
use vstd::arithmetic::div_mod::{
    lemma_div_pos_is_pos, lemma_fundamental_div_mod, lemma_fundamental_div_mod_converse,
    lemma_mod_bound,
};
use vstd::arithmetic::power2::{lemma2_to64, lemma_pow2_pos, lemma_pow2_unfold, pow2};
use vstd::prelude::*;

verus! {

/// A correction of zero changes nothing.
pub proof fn lemma_zero_correction(pose: PoseModel, a: Landmark, b: Landmark, arm_a: V3, arm_b: V3)
    requires
        pose_wf(pose),
    ensures
        corrected(pose, a, b, arm_a, arm_b, V3::zero()) == pose,
{
    let zero = V3::zero();
    let ia = a.ordinal();
    let ib = b.ordinal();
    assert(pose[ia].wf());
    assert(pose[ib].wf());
    let s1 = with_position(pose, ia, pose[ia].position.plus(zero).confined());
    assert(s1 =~= pose);
    let s2 = with_position(s1, ib, s1[ib].position.minus(zero).confined());
    assert(s2 =~= pose);
    lemma_cross_of_zero(arm_a);
    lemma_cross_of_zero(arm_b);
    assert(arm_b.cross(zero).negated() == zero);
    let qa = pose[ia].orientation;
    assert(qa.spin(zero) == (Q4 { x: 0, y: 0, z: 0, w: 0 }));
    assert(qa.turned(zero) == qa);
    let s3 = with_turn(s2, ia, zero);
    assert(s3 =~= pose);
    let qb = pose[ib].orientation;
    assert(qb.spin(zero) == (Q4 { x: 0, y: 0, z: 0, w: 0 }));
    assert(qb.turned(zero) == qb);
    assert(with_turn(s3, ib, zero) =~= pose);
}

/// Every weight is at least one.
pub proof fn lemma_lever_weights_positive(arm: V3)
    ensures
        lever_weights(arm).x >= ONE,
        lever_weights(arm).y >= ONE,
        lever_weights(arm).z >= ONE,
{
    assert(arm.x * arm.x >= 0 && arm.y * arm.y >= 0 && arm.z * arm.z >= 0) by (nonlinear_arith);
    lemma_div_pos_is_pos(arm.y * arm.y + arm.z * arm.z, ONE as int);
    lemma_div_pos_is_pos(arm.z * arm.z + arm.x * arm.x, ONE as int);
    lemma_div_pos_is_pos(arm.x * arm.x + arm.y * arm.y, ONE as int);
}

/// A ball joint without error leaves the pose as it is.
pub proof fn lemma_spherical_step_at_rest(pose: PoseModel, c: SphericalModel)
    requires
        pose_wf(pose),
        spherical_error(pose, c) == V3::zero(),
    ensures
        spherical_step(pose, c) == pose,
{
    let a = pose[c.body_a.ordinal()];
    let b = pose[c.body_b.ordinal()];
    let arm_a = a.orientation.rotate(c.point_in_a);
    let arm_b = b.orientation.rotate(c.point_in_b);
    let wa = lever_weights(arm_a);
    let wb = lever_weights(arm_b);
    lemma_lever_weights_positive(arm_a);
    lemma_lever_weights_positive(arm_b);
    lemma_trunc_div(0, wa.x + wb.x);
    lemma_trunc_div(0, wa.y + wb.y);
    lemma_trunc_div(0, wa.z + wb.z);
    assert(spherical_correction(V3::zero(), wa, wb) == V3::zero());
    lemma_zero_correction(pose, c.body_a, c.body_b, arm_a, arm_b);
}

/// A fixed distance without error leaves the pose as it is.
pub proof fn lemma_distance_step_at_rest(pose: PoseModel, c: DistanceModel)
    requires
        pose_wf(pose),
        distance_error(pose, c) == 0,
    ensures
        distance_step(pose, c) == pose,
{
    let a = pose[c.body_a.ordinal()];
    let b = pose[c.body_b.ordinal()];
    let arm_a = a.orientation.rotate(c.point_in_a);
    let arm_b = b.orientation.rotate(c.point_in_b);
    let wa = lever_weights(arm_a);
    let wb = lever_weights(arm_b);
    let gap = attachment_gap(a, arm_a, b, arm_b);
    let len = gap.length();
    assert(len - c.rest_distance == 0);
    assert((len - c.rest_distance) * gap.x == 0 && (len - c.rest_distance) * gap.y == 0 && (len
        - c.rest_distance) * gap.z == 0) by (nonlinear_arith)
        requires
            len - c.rest_distance == 0,
    ;
    if len >= MIN_SEPARATION {
        lemma_lever_weights_positive(arm_a);
        lemma_lever_weights_positive(arm_b);
        assert((wa.x + wb.x) * len > 0 && (wa.y + wb.y) * len > 0 && (wa.z + wb.z) * len > 0)
            by (nonlinear_arith)
            requires
                len > 0,
                wa.x + wb.x > 0,
                wa.y + wb.y > 0,
                wa.z + wb.z > 0,
        ;
        lemma_trunc_div(0, (wa.x + wb.x) * len);
        lemma_trunc_div(0, (wa.y + wb.y) * len);
        lemma_trunc_div(0, (wa.z + wb.z) * len);
    }
    assert(distance_correction(gap, c.rest_distance, wa, wb) == V3::zero());
    lemma_zero_correction(pose, c.body_a, c.body_b, arm_a, arm_b);
}

/// Half of a vector, each component rounded toward zero.
pub open spec fn halfway(v: V3) -> V3 {
    V3 { x: trunc_div(v.x, 2), y: trunc_div(v.y, 2), z: trunc_div(v.z, 2) }
}

/// Half of a scalar, taken at either scale.
proof fn lemma_halved(k: int)
    ensures
        trunc_div(k * ONE, 2 * ONE) == trunc_div(k, 2),
{
    let m = magnitude(k);
    lemma_fundamental_div_mod(m, 2);
    lemma_fundamental_div_mod_converse(
        m * ONE,
        2 * ONE,
        m / 2,
        (m % 2) * ONE,
    );
}

/// A ball joint at the centres of two different bodies closes in one
/// projection: afterwards the two centres lie at most one raw unit apart
/// along every axis, and the pose is well formed.
pub proof fn lemma_centre_joint_closes(pose: PoseModel, c: SphericalModel)
    requires
        pose_wf(pose),
        c.body_a != c.body_b,
        c.point_in_a == V3::zero(),
        c.point_in_b == V3::zero(),
    ensures
        spherical_error(spherical_step(pose, c), c).within(1),
        pose_wf(spherical_step(pose, c)),
        spherical_step(pose, c)[c.body_b.ordinal()].position
            == pose[c.body_b.ordinal()].position.plus(
            halfway(pose[c.body_a.ordinal()].position.minus(pose[c.body_b.ordinal()].position)),
        ),
        spherical_step(pose, c)[c.body_b.ordinal()].orientation
            == pose[c.body_b.ordinal()].orientation,
        forall|i: int|
            0 <= i < LANDMARK_COUNT && i != c.body_a.ordinal() && i
                != c.body_b.ordinal() ==> spherical_step(pose, c)[i] == pose[i],
{
    let zero = V3::zero();
    let ia = c.body_a.ordinal();
    let ib = c.body_b.ordinal();
    lemma_index_is_dense(c.body_a, c.body_b);
    let a = pose[ia];
    let b = pose[ib];
    assert(a.wf() && b.wf());
    lemma_rotate_zero(a.orientation);
    lemma_rotate_zero(b.orientation);
    assert(lever_weights(zero) == (V3 { x: ONE as int, y: ONE as int, z: ONE as int }));
    let gap = attachment_gap(a, zero, b, zero);
    assert(gap == a.position.minus(b.position));
    let corr = spherical_correction(gap, lever_weights(zero), lever_weights(zero));
    lemma_halved(-gap.x);
    lemma_halved(-gap.y);
    lemma_halved(-gap.z);
    assert(corr.x == trunc_div(-gap.x, 2) && corr.y == trunc_div(-gap.y, 2) && corr.z
        == trunc_div(-gap.z, 2));
    let s1 = with_position(pose, ia, a.position.plus(corr).confined());
    assert(s1[ia].position == a.position.plus(corr));
    assert(s1[ib] == b);
    let s2 = with_position(s1, ib, s1[ib].position.minus(corr).confined());
    assert(s2[ib].position == b.position.minus(corr));
    assert(s2[ia].position == a.position.plus(corr));
    lemma_cross_of_zero(corr);
    assert(a.orientation.spin(zero) == (Q4 { x: 0, y: 0, z: 0, w: 0 }));
    assert(a.orientation.turned(zero) == a.orientation);
    let s3 = with_turn(s2, ia, zero);
    assert(s3 =~= s2);
    assert(b.orientation.spin(zero) == (Q4 { x: 0, y: 0, z: 0, w: 0 }));
    assert(b.orientation.turned(zero) == b.orientation);
    let s4 = with_turn(s3, ib, zero.negated());
    assert(s4 =~= s2);
    assert(spherical_step(pose, c) == s4);
    assert(s2[ia].orientation == a.orientation);
    assert(s2[ib].orientation == b.orientation);
    assert(spherical_error(s2, c) == s2[ia].position.minus(s2[ib].position));
    assert forall|i: int| 0 <= i < LANDMARK_COUNT implies (#[trigger] s2[i]).wf() by {
        if i != ia && i != ib {
            assert(s2[i] == pose[i]);
        }
    }
}

/// A common factor of dividend and divisor cancels.
proof fn lemma_trunc_div_cancel(x: int, d: int, m: int)
    requires
        d > 0,
        m > 0,
    ensures
        trunc_div(x * m, d * m) == trunc_div(x, d),
{
    let a = magnitude(x);
    lemma_fundamental_div_mod(a, d);
    lemma_mod_bound(a, d);
    assert(a * m == (a / d) * (d * m) + (a % d) * m && 0 <= (a % d) * m < d * m && d * m > 0
        && magnitude(x * m) == a * m) by (nonlinear_arith)
        requires
            a == d * (a / d) + a % d,
            0 <= a % d < d,
            m > 0,
            d > 0,
            a == magnitude(x),
    ;
    lemma_fundamental_div_mod_converse(
        a * m,
        d * m,
        a / d,
        (a % d) * m,
    );
    assert((x >= 0 ==> x * m >= 0 && x * m == a * m) && (x < 0 ==> x * m < 0 && -(x * m) == a
        * m)) by (nonlinear_arith)
        requires
            a == magnitude(x),
            m > 0,
    ;
}

/// One component of a stretched link: the share `k` of the surplus that each
/// body takes, and what the rounding leaves.
proof fn lemma_link_component(g: int, len: int, rest: int) -> (k: int)
    requires
        0 <= rest <= len,
        0 < len,
    ensures
        k == trunc_div((len - rest) * g, 2 * len),
        g >= 0 ==> 0 <= k <= g,
        g <= 0 ==> g <= k <= 0,
        -2 * len < len * (g - 2 * k) - rest * g < 2 * len,
{
    let x = (len - rest) * g;
    let d = 2 * len;
    let k = trunc_div(x, d);
    lemma_trunc_div(x, d);
    assert(magnitude(x) <= magnitude(g) * d) by (nonlinear_arith)
        requires
            x == (len - rest) * g,
            d == 2 * len,
            0 <= rest <= len,
    ;
    lemma_trunc_div_at_most(x, d, magnitude(g));
    assert(g >= 0 ==> x >= 0) by (nonlinear_arith)
        requires
            x == (len - rest) * g,
            0 <= rest <= len,
    ;
    assert(g <= 0 ==> x <= 0) by (nonlinear_arith)
        requires
            x == (len - rest) * g,
            0 <= rest <= len,
    ;
    assert(-d < x - d * k < d) by (nonlinear_arith)
        requires
            d > 0,
            magnitude(k) * d <= magnitude(x),
            magnitude(x) < (magnitude(k) + 1) * d,
            x >= 0 ==> k >= 0,
            x <= 0 ==> k <= 0,
    ;
    assert(len * (g - 2 * k) - rest * g == x - d * k) by (nonlinear_arith)
        requires
            x == (len - rest) * g,
            d == 2 * len,
    ;
    k
}

/// The square of a disturbed product lies near the square of the product.
proof fn lemma_disturbed_square(h: int, rest: int, g: int, len: int)
    by (nonlinear_arith)
    requires
        0 <= rest,
        0 < len,
        -2 * len < h - rest * g < 2 * len,
    ensures
        h * h <= rest * rest * (g * g) + 4 * len * (rest * magnitude(g)) + 4 * (len * len),
        h * h >= rest * rest * (g * g) - 4 * len * (rest * magnitude(g)),
{
    let x = rest * g;
    let r = h - x;
    let a = magnitude(g);
    assert(magnitude(x) == rest * a);
    assert(h * h == x * x + 2 * (x * r) + r * r);
    assert(r * r <= 4 * (len * len));
    assert(-(2 * len) * (rest * a) <= x * r <= (2 * len) * (rest * a));
    assert(x * x == rest * rest * (g * g));
}

/// The square of a product is the product of the squares.
proof fn lemma_scaled_square(l: int, g: int)
    by (nonlinear_arith)
    ensures
        (l * g) * (l * g) == (l * l) * (g * g),
{
}

/// The sum of the magnitudes of three components is below twice the length
/// and two.
proof fn lemma_sum_of_three(a: int, b: int, c: int, s: int, len: int)
    by (nonlinear_arith)
    requires
        0 <= a,
        0 <= b,
        0 <= c,
        0 <= len,
        a * a + b * b + c * c == s,
        s < (len + 1) * (len + 1),
    ensures
        a + b + c <= 2 * len + 1,
{
    assert((a - b) * (a - b) >= 0);
    assert((a - c) * (a - c) >= 0);
    assert((b - c) * (b - c) >= 0);
    assert((a + b + c) * (a + b + c) <= 3 * s);
    assert((a + b + c) * (a + b + c) < (2 * len + 2) * (2 * len + 2));
}

/// From the bounds of the scaled squares to the bounds of the new length.
proof fn lemma_link_length(s2: int, s: int, t: int, len: int, rest: int, l2: int)
    by (nonlinear_arith)
    requires
        0 <= rest <= len,
        0 < len,
        len * len <= s,
        s < (len + 1) * (len + 1),
        0 <= t <= 2 * len + 1,
        (len * len) * s2 <= rest * rest * s + 4 * len * (rest * t) + 12 * (len * len),
        (len * len) * s2 >= rest * rest * s - 4 * len * (rest * t),
        0 <= l2,
        l2 * l2 <= s2,
        s2 < (l2 + 1) * (l2 + 1),
    ensures
        rest - 12 <= l2 <= rest + 4,
{
    let p = len * len;
    assert(rest * rest * s <= rest * rest * p + 2 * (len * (rest * rest)));
    assert(len * (rest * rest) <= p * rest);
    assert(len * (rest * t) <= 2 * (p * rest) + p);
    assert(p * s2 <= p * (rest * rest) + 10 * (p * rest) + 16 * p);
    assert(p * s2 < p * ((rest + 5) * (rest + 5)));
    assert(s2 < (rest + 5) * (rest + 5));
    assert(l2 < rest + 5);
    assert(rest * rest * s >= rest * rest * p);
    assert(p * s2 >= p * (rest * rest) - 12 * (p * rest));
    assert(s2 >= rest * rest - 12 * rest);
    if rest >= 12 {
        assert((rest - 12) * (rest - 12) <= s2);
        assert(l2 + 1 > rest - 12);
    }
}

/// A stretched link between the centres of two different bodies closes in
/// one projection: where the two centres lie at least the rest distance and
/// `MIN_SEPARATION` apart, they lie afterwards within twelve raw units of
/// the rest distance, and the pose is well formed.
pub proof fn lemma_centre_link_closes(pose: PoseModel, c: DistanceModel)
    requires
        pose_wf(pose),
        c.body_a != c.body_b,
        c.point_in_a == V3::zero(),
        c.point_in_b == V3::zero(),
        0 <= c.rest_distance,
        distance_error(pose, c) >= 0,
        distance_error(pose, c) + c.rest_distance >= MIN_SEPARATION,
    ensures
        -12 <= distance_error(distance_step(pose, c), c) <= 4,
        pose_wf(distance_step(pose, c)),
{
    let zero = V3::zero();
    let ia = c.body_a.ordinal();
    let ib = c.body_b.ordinal();
    lemma_index_is_dense(c.body_a, c.body_b);
    let a = pose[ia];
    let b = pose[ib];
    assert(a.wf() && b.wf());
    lemma_rotate_zero(a.orientation);
    lemma_rotate_zero(b.orientation);
    assert(lever_weights(zero) == (V3 { x: ONE as int, y: ONE as int, z: ONE as int }));
    let gap = attachment_gap(a, zero, b, zero);
    assert(gap == a.position.minus(b.position));
    let s = gap.norm_sq();
    let len = gap.length();
    let rest = c.rest_distance;
    lemma_norm_sq_bound(gap, 2_000_000_000_000);
    lemma_floor_sqrt_exists(s);
    assert(is_floor_sqrt(len, s));
    let corr = distance_correction(gap, rest, lever_weights(zero), lever_weights(zero));
    let kx = lemma_link_component(gap.x, len, rest);
    let ky = lemma_link_component(gap.y, len, rest);
    let kz = lemma_link_component(gap.z, len, rest);
    lemma_trunc_div_cancel((len - rest) * gap.x, 2 * len, ONE as int);
    lemma_trunc_div_cancel((len - rest) * gap.y, 2 * len, ONE as int);
    lemma_trunc_div_cancel((len - rest) * gap.z, 2 * len, ONE as int);
    lemma_trunc_div(((len - rest) * gap.x) * ONE, (2 * len) * ONE);
    lemma_trunc_div(((len - rest) * gap.y) * ONE, (2 * len) * ONE);
    lemma_trunc_div(((len - rest) * gap.z) * ONE, (2 * len) * ONE);
    assert((ONE + ONE) * len == (2 * len) * ONE) by (nonlinear_arith);
    assert(corr == (V3 { x: -kx, y: -ky, z: -kz }));
    let s1 = with_position(pose, ia, a.position.plus(corr).confined());
    assert(s1[ia].position == a.position.plus(corr));
    assert(s1[ib] == b);
    let s2 = with_position(s1, ib, s1[ib].position.minus(corr).confined());
    assert(s2[ib].position == b.position.minus(corr));
    assert(s2[ia].position == a.position.plus(corr));
    lemma_cross_of_zero(corr);
    assert(a.orientation.spin(zero) == (Q4 { x: 0, y: 0, z: 0, w: 0 }));
    assert(a.orientation.turned(zero) == a.orientation);
    let s3 = with_turn(s2, ia, zero);
    assert(s3 =~= s2);
    assert(b.orientation.spin(zero) == (Q4 { x: 0, y: 0, z: 0, w: 0 }));
    assert(b.orientation.turned(zero) == b.orientation);
    let s4 = with_turn(s3, ib, zero.negated());
    assert(s4 =~= s2);
    assert(distance_step(pose, c) == s4);
    assert forall|i: int| 0 <= i < LANDMARK_COUNT implies (#[trigger] s2[i]).wf() by {
        if i != ia && i != ib {
            assert(s2[i] == pose[i]);
        }
    }
    let g2 = V3 { x: gap.x - 2 * kx, y: gap.y - 2 * ky, z: gap.z - 2 * kz };
    assert(attachment_gap(s2[ia], zero, s2[ib], zero) == g2);
    let q = g2.norm_sq();
    lemma_norm_sq_bound(g2, 6_000_000_000_000);
    lemma_floor_sqrt_exists(q);
    let l2 = g2.length();
    assert(distance_error(s2, c) == l2 - rest);
    let hx = len * g2.x;
    let hy = len * g2.y;
    let hz = len * g2.z;
    lemma_disturbed_square(hx, rest, gap.x, len);
    lemma_disturbed_square(hy, rest, gap.y, len);
    lemma_disturbed_square(hz, rest, gap.z, len);
    let t = magnitude(gap.x) + magnitude(gap.y) + magnitude(gap.z);
    assert(magnitude(gap.x) * magnitude(gap.x) + magnitude(gap.y) * magnitude(gap.y) + magnitude(
        gap.z,
    ) * magnitude(gap.z) == s) by (nonlinear_arith)
        requires
            s == gap.x * gap.x + gap.y * gap.y + gap.z * gap.z,
    ;
    lemma_sum_of_three(magnitude(gap.x), magnitude(gap.y), magnitude(gap.z), s, len);
    lemma_scaled_square(len, g2.x);
    lemma_scaled_square(len, g2.y);
    lemma_scaled_square(len, g2.z);
    let p = len * len;
    assert(p * q == p * (g2.x * g2.x) + p * (g2.y * g2.y) + p * (g2.z * g2.z))
        by (nonlinear_arith)
        requires
            q == g2.x * g2.x + g2.y * g2.y + g2.z * g2.z,
    ;
    assert(rest * rest * s == rest * rest * (gap.x * gap.x) + rest * rest * (gap.y * gap.y) + rest
        * rest * (gap.z * gap.z)) by (nonlinear_arith)
        requires
            s == gap.x * gap.x + gap.y * gap.y + gap.z * gap.z,
    ;
    assert(4 * len * (rest * t) == 4 * len * (rest * magnitude(gap.x)) + 4 * len * (rest
        * magnitude(gap.y)) + 4 * len * (rest * magnitude(gap.z))) by (nonlinear_arith)
        requires
            t == magnitude(gap.x) + magnitude(gap.y) + magnitude(gap.z),
    ;
    lemma_link_length(q, s, t, len, rest, l2);
}

/// The pose is at rest: it is well formed, its driven landmarks are at their
/// frames, and no constraint has an error.
pub open spec fn at_rest(
    pose: PoseModel,
    d: DrivenModel,
    spherical: Seq<SphericalConstraint>,
    distance: Seq<DistanceConstraint>,
) -> bool {
    &&& pose_wf(pose)
    &&& seeded(pose, d) == pose
    &&& forall|i: int|
        0 <= i < spherical.len() ==> spherical_error(pose, (#[trigger] spherical[i])@)
            == V3::zero()
    &&& forall|i: int|
        0 <= i < distance.len() ==> distance_error(pose, (#[trigger] distance[i])@) == 0
}

/// Ball joints without error leave the pose as it is.
proof fn lemma_spherical_pass_at_rest(pose: PoseModel, cs: Seq<SphericalConstraint>)
    requires
        pose_wf(pose),
        forall|i: int|
            0 <= i < cs.len() ==> spherical_error(pose, (#[trigger] cs[i])@) == V3::zero(),
    ensures
        spherical_pass(pose, cs) == pose,
    decreases cs.len(),
{
    if cs.len() > 0 {
        lemma_spherical_pass_at_rest(pose, cs.drop_last());
        assert(cs.last() == cs[cs.len() - 1]);
        lemma_spherical_step_at_rest(pose, cs.last()@);
    }
}

/// Fixed distances without error leave the pose as it is.
proof fn lemma_distance_pass_at_rest(pose: PoseModel, cs: Seq<DistanceConstraint>)
    requires
        pose_wf(pose),
        forall|i: int| 0 <= i < cs.len() ==> distance_error(pose, (#[trigger] cs[i])@) == 0,
    ensures
        distance_pass(pose, cs) == pose,
    decreases cs.len(),
{
    if cs.len() > 0 {
        lemma_distance_pass_at_rest(pose, cs.drop_last());
        assert(cs.last() == cs[cs.len() - 1]);
        lemma_distance_step_at_rest(pose, cs.last()@);
    }
}

/// A pose at rest is a fixed point of the solver: solved again from the same
/// driven frames, with any number of passes, it comes out as it went in.
pub proof fn lemma_rest_is_fixed_point(
    pose: PoseModel,
    d: DrivenModel,
    spherical: Seq<SphericalConstraint>,
    distance: Seq<DistanceConstraint>,
    n: nat,
)
    requires
        at_rest(pose, d, spherical, distance),
    ensures
        relaxed(pose, d, spherical, distance, n) == pose,
        solved(pose, d, spherical, distance, n) == pose,
    decreases n,
{
    if n > 0 {
        lemma_rest_is_fixed_point(pose, d, spherical, distance, (n - 1) as nat);
        lemma_spherical_pass_at_rest(pose, spherical);
        lemma_distance_pass_at_rest(pose, distance);
    }
}

/// What is left of an error after a pass has halved it, rounding the half
/// toward zero, `n` times over.
pub open spec fn remaining(e: int, n: nat) -> int
    decreases n,
{
    if n == 0 {
        e
    } else {
        let r = remaining(e, (n - 1) as nat);
        r - trunc_div(r, 2)
    }
}

/// What is left of an error vector after `n` passes.
pub open spec fn remaining_error(e: V3, n: nat) -> V3 {
    V3 { x: remaining(e.x, n), y: remaining(e.y, n), z: remaining(e.z, n) }
}

/// What is left after `n` halvings is at most the `2^n`-th part of the error
/// and one raw unit.
pub proof fn lemma_remaining_bound(e: int, n: nat)
    ensures
        (magnitude(remaining(e, n)) - 1) * pow2(n) <= magnitude(e),
    decreases n,
{
    if n == 0 {
        lemma2_to64();
    } else {
        let r = remaining(e, (n - 1) as nat);
        lemma_remaining_bound(e, (n - 1) as nat);
        let m = magnitude(r);
        let left = magnitude(r - trunc_div(r, 2));
        lemma_pow2_unfold(n);
        let p = pow2((n - 1) as nat) as int;
        lemma_pow2_pos((n - 1) as nat);
        assert(2 * (left - 1) <= m - 1 || left <= 1);
        assert((left - 1) * (2 * p) <= magnitude(e)) by (nonlinear_arith)
            requires
                (m - 1) * p <= magnitude(e),
                2 * (left - 1) <= m - 1 || left <= 1,
                0 <= magnitude(e),
                0 < p,
        ;
    }
}

/// The chain of a driven body and a free one, joined at their centres.
pub open spec fn is_centre_chain(d: DrivenModel, cs: Seq<SphericalConstraint>) -> bool {
    &&& cs.len() == 1
    &&& cs[0].body_a.driven()
    &&& !cs[0].body_b.driven()
    &&& cs[0]@.point_in_a == V3::zero()
    &&& cs[0]@.point_in_b == V3::zero()
}

/// One pass over a centre chain moves the free body half of the way to the
/// driven one and leaves its orientation alone.
proof fn lemma_centre_chain_pass(pose: PoseModel, d: DrivenModel, cs: Seq<SphericalConstraint>)
    requires
        pose_wf(pose),
        d.wf(),
        is_centre_chain(d, cs),
    ensures
        pose_wf(pass(pose, d, cs, Seq::empty())),
        ({
            let target = d.frame_of(cs[0].body_a)->0.position;
            let free = cs[0].body_b.ordinal();
            let after = pass(pose, d, cs, Seq::empty());
            &&& target.minus(after[free].position) == remaining_error(
                target.minus(pose[free].position),
                1,
            )
        }),
{
    let c = cs[0]@;
    let s = seeded(pose, d);
    lemma_seeded(pose, d, cs[0].body_a);
    lemma_seeded(pose, d, cs[0].body_b);
    assert(cs.drop_last() =~= Seq::<SphericalConstraint>::empty());
    assert(spherical_pass(s, cs.drop_last()) == s);
    assert(cs.last() == cs[0]);
    assert(spherical_pass(s, cs) == spherical_step(s, c));
    assert(distance_pass(spherical_step(s, c), Seq::<DistanceConstraint>::empty())
        == spherical_step(s, c));
    lemma_centre_joint_closes(s, c);
    let e = d.frame_of(cs[0].body_a)->0.position.minus(pose[cs[0].body_b.ordinal()].position);
    assert(remaining(e.x, 0) == e.x && remaining(e.y, 0) == e.y && remaining(e.z, 0) == e.z);
    assert(remaining(e.x, 1) == e.x - trunc_div(e.x, 2));
    assert(remaining(e.y, 1) == e.y - trunc_div(e.y, 2));
    assert(remaining(e.z, 1) == e.z - trunc_div(e.z, 2));
}

/// Convergence of a centre chain: with one driven body and one free body
/// joined at their centres, every pass halves what separates the free body
/// from where the driven one is held. After `n` passes the error of the joint
/// is what `n` halvings leave of the error after the first seeding, which is
/// at most its `2^n`-th part and one raw unit.
pub proof fn lemma_centre_chain_converges(
    pose: PoseModel,
    d: DrivenModel,
    cs: Seq<SphericalConstraint>,
    n: nat,
)
    requires
        pose_wf(pose),
        d.wf(),
        is_centre_chain(d, cs),
    ensures
        pose_wf(relaxed(pose, d, cs, Seq::empty(), n)),
        spherical_error(solved(pose, d, cs, Seq::empty(), n), cs[0]@) == remaining_error(
            spherical_error(seeded(pose, d), cs[0]@),
            n,
        ),
        d.frame_of(cs[0].body_a)->0.position.minus(
            relaxed(pose, d, cs, Seq::empty(), n)[cs[0].body_b.ordinal()].position,
        ) == remaining_error(spherical_error(seeded(pose, d), cs[0]@), n),
    decreases n,
{
    let c = cs[0]@;
    let none = Seq::<DistanceConstraint>::empty();
    let target = d.frame_of(cs[0].body_a)->0;
    let free = cs[0].body_b.ordinal();
    let zero = V3::zero();
    lemma_seeded(pose, d, cs[0].body_a);
    lemma_seeded(pose, d, cs[0].body_b);
    assert(target.wf());
    assert(pose[free].wf());
    lemma_rotate_zero(target.orientation);
    let e0 = spherical_error(seeded(pose, d), c);
    lemma_rotate_zero(pose[free].orientation);
    assert(e0 == target.position.minus(pose[free].position));
    if n > 0 {
        let before = relaxed(pose, d, cs, none, (n - 1) as nat);
        lemma_centre_chain_converges(pose, d, cs, (n - 1) as nat);
        lemma_centre_chain_pass(before, d, cs);
        let e = target.position.minus(before[free].position);
        assert(remaining(e.x, 0) == e.x && remaining(e.y, 0) == e.y && remaining(e.z, 0) == e.z);
    }
    let last = relaxed(pose, d, cs, none, n);
    lemma_seeded(last, d, cs[0].body_a);
    lemma_seeded(last, d, cs[0].body_b);
    assert(last[free].wf());
    lemma_rotate_zero(last[free].orientation);
}

/// From the bounds of the scaled squares to the bounds of twice the new
/// length of a chain.
proof fn lemma_chain_length(s2: int, s: int, t: int, len: int, rest: int, l2: int)
    by (nonlinear_arith)
    requires
        0 <= rest <= len,
        17 <= len,
        len * len <= s,
        s < (len + 1) * (len + 1),
        0 <= t <= 2 * len + 1,
        4 * (len * len) * s2 <= (len + rest) * (len + rest) * s + 4 * len * ((len + rest) * t) + 12
            * (len * len),
        4 * (len * len) * s2 >= (len + rest) * (len + rest) * s - 4 * len * ((len + rest) * t),
        0 <= l2,
        l2 * l2 <= s2,
        s2 < (l2 + 1) * (l2 + 1),
    ensures
        len + rest - 6 <= 2 * l2 <= len + rest + 5,
{
    let m = len + rest;
    let p = len * len;
    assert(m <= 2 * len);
    assert(m * m * s <= m * m * p + 2 * (len * (m * m)));
    assert(len * (m * m) <= 2 * (p * m));
    assert(len * (m * t) <= 2 * (p * m) + len * m);
    assert(len * m <= 2 * p);
    assert(4 * (p * s2) <= p * (m * m) + 12 * (p * m) + 20 * p);
    assert(4 * (p * s2) < p * ((m + 6) * (m + 6)));
    assert(4 * s2 < (m + 6) * (m + 6));
    assert((2 * l2) * (2 * l2) <= 4 * s2);
    assert(2 * l2 < m + 6);
    assert(m * m * s >= m * m * p);
    assert(4 * (p * s2) >= p * (m * m) - 8 * (p * m) - 8 * p);
    assert(4 * s2 >= m * m - 8 * m - 8);
    assert((m - 5) * (m - 5) <= 4 * s2);
    assert((2 * l2 + 2) * (2 * l2 + 2) > 4 * s2);
    assert(2 * l2 + 2 > m - 5);
}

/// The chain of a driven body and a free one, linked at their centres.
pub open spec fn is_centre_link_chain(d: DrivenModel, cs: Seq<DistanceConstraint>) -> bool {
    &&& cs.len() == 1
    &&& cs[0].body_a.driven()
    &&& !cs[0].body_b.driven()
    &&& cs[0]@.point_in_a == V3::zero()
    &&& cs[0]@.point_in_b == V3::zero()
    &&& 0 <= cs[0].rest_distance
}

/// Convergence of a stretched link chain: with one driven body and one free
/// body linked at their centres, and the free body at least the rest
/// distance and `MIN_SEPARATION` from where the driven one is held, one pass
/// halves the surplus of the separation over the rest distance, up to three
/// raw units.
pub proof fn lemma_centre_link_chain_halves(
    pose: PoseModel,
    d: DrivenModel,
    cs: Seq<DistanceConstraint>,
)
    requires
        pose_wf(pose),
        d.wf(),
        is_centre_link_chain(d, cs),
        distance_error(seeded(pose, d), cs[0]@) >= 0,
        distance_error(seeded(pose, d), cs[0]@) + cs[0].rest_distance >= MIN_SEPARATION,
    ensures
        pose_wf(pass(pose, d, Seq::empty(), cs)),
        ({
            let before = distance_error(seeded(pose, d), cs[0]@);
            let after = distance_error(seeded(pass(pose, d, Seq::empty(), cs), d), cs[0]@);
            before - 6 <= 2 * after <= before + 5
        }),
{
    let c = cs[0]@;
    let zero = V3::zero();
    let ia = c.body_a.ordinal();
    let ib = c.body_b.ordinal();
    let s0 = seeded(pose, d);
    lemma_seeded(pose, d, cs[0].body_a);
    lemma_seeded(pose, d, cs[0].body_b);
    lemma_index_is_dense(c.body_a, c.body_b);
    assert(cs.drop_last() =~= Seq::<DistanceConstraint>::empty());
    assert(cs.last() == cs[0]);
    assert(spherical_pass(s0, Seq::<SphericalConstraint>::empty()) == s0);
    assert(distance_pass(s0, cs.drop_last()) == s0);
    assert(pass(pose, d, Seq::empty(), cs) == distance_step(s0, c));
    let a = s0[ia];
    let b = s0[ib];
    assert(a.wf() && b.wf());
    lemma_rotate_zero(a.orientation);
    lemma_rotate_zero(b.orientation);
    assert(lever_weights(zero) == (V3 { x: ONE as int, y: ONE as int, z: ONE as int }));
    let gap = attachment_gap(a, zero, b, zero);
    assert(gap == a.position.minus(b.position));
    let s = gap.norm_sq();
    let len = gap.length();
    let rest = c.rest_distance;
    lemma_norm_sq_bound(gap, 2_000_000_000_000);
    lemma_floor_sqrt_exists(s);
    assert(is_floor_sqrt(len, s));
    let corr = distance_correction(gap, rest, lever_weights(zero), lever_weights(zero));
    let kx = lemma_link_component(gap.x, len, rest);
    let ky = lemma_link_component(gap.y, len, rest);
    let kz = lemma_link_component(gap.z, len, rest);
    lemma_trunc_div_cancel((len - rest) * gap.x, 2 * len, ONE as int);
    lemma_trunc_div_cancel((len - rest) * gap.y, 2 * len, ONE as int);
    lemma_trunc_div_cancel((len - rest) * gap.z, 2 * len, ONE as int);
    lemma_trunc_div(((len - rest) * gap.x) * ONE, (2 * len) * ONE);
    lemma_trunc_div(((len - rest) * gap.y) * ONE, (2 * len) * ONE);
    lemma_trunc_div(((len - rest) * gap.z) * ONE, (2 * len) * ONE);
    assert((ONE + ONE) * len == (2 * len) * ONE) by (nonlinear_arith);
    assert(corr == (V3 { x: -kx, y: -ky, z: -kz }));
    let s1 = with_position(s0, ia, a.position.plus(corr).confined());
    assert(s1[ib] == b);
    let s2 = with_position(s1, ib, s1[ib].position.minus(corr).confined());
    assert(s2[ib].position == b.position.minus(corr));
    lemma_cross_of_zero(corr);
    assert(a.orientation.spin(zero) == (Q4 { x: 0, y: 0, z: 0, w: 0 }));
    assert(a.orientation.turned(zero) == a.orientation);
    let s3 = with_turn(s2, ia, zero);
    assert(s3 =~= s2);
    assert(b.orientation.spin(zero) == (Q4 { x: 0, y: 0, z: 0, w: 0 }));
    assert(b.orientation.turned(zero) == b.orientation);
    let s4 = with_turn(s3, ib, zero.negated());
    assert(s4 =~= s2);
    assert(distance_step(s0, c) == s4);
    assert forall|i: int| 0 <= i < LANDMARK_COUNT implies (#[trigger] s2[i]).wf() by {
        if i != ia && i != ib {
            assert(s2[i] == s0[i]);
        }
    }
    let last = seeded(s2, d);
    lemma_seeded(s2, d, cs[0].body_a);
    lemma_seeded(s2, d, cs[0].body_b);
    assert(last[ia] == a);
    assert(last[ib] == s2[ib]);
    let g2 = V3 { x: gap.x - kx, y: gap.y - ky, z: gap.z - kz };
    assert(attachment_gap(last[ia], zero, last[ib], zero) == g2);
    let q = g2.norm_sq();
    lemma_norm_sq_bound(g2, 4_000_000_000_000);
    lemma_floor_sqrt_exists(q);
    let l2 = g2.length();
    assert(distance_error(last, c) == l2 - rest);
    let m = len + rest;
    let hx = (2 * len) * g2.x;
    let hy = (2 * len) * g2.y;
    let hz = (2 * len) * g2.z;
    assert(hx - m * gap.x == len * (gap.x - 2 * kx) - rest * gap.x && hy - m * gap.y == len * (
    gap.y - 2 * ky) - rest * gap.y && hz - m * gap.z == len * (gap.z - 2 * kz) - rest * gap.z)
        by (nonlinear_arith)
        requires
            hx == (2 * len) * (gap.x - kx),
            hy == (2 * len) * (gap.y - ky),
            hz == (2 * len) * (gap.z - kz),
            m == len + rest,
    ;
    lemma_disturbed_square(hx, m, gap.x, len);
    lemma_disturbed_square(hy, m, gap.y, len);
    lemma_disturbed_square(hz, m, gap.z, len);
    let t = magnitude(gap.x) + magnitude(gap.y) + magnitude(gap.z);
    assert(magnitude(gap.x) * magnitude(gap.x) + magnitude(gap.y) * magnitude(gap.y) + magnitude(
        gap.z,
    ) * magnitude(gap.z) == s) by (nonlinear_arith)
        requires
            s == gap.x * gap.x + gap.y * gap.y + gap.z * gap.z,
    ;
    lemma_sum_of_three(magnitude(gap.x), magnitude(gap.y), magnitude(gap.z), s, len);
    lemma_scaled_square(2 * len, g2.x);
    lemma_scaled_square(2 * len, g2.y);
    lemma_scaled_square(2 * len, g2.z);
    let p = len * len;
    assert((2 * len) * (2 * len) == 4 * p) by (nonlinear_arith)
        requires
            p == len * len,
    ;
    assert(4 * p * q == (4 * p) * (g2.x * g2.x) + (4 * p) * (g2.y * g2.y) + (4 * p) * (g2.z
        * g2.z)) by (nonlinear_arith)
        requires
            q == g2.x * g2.x + g2.y * g2.y + g2.z * g2.z,
    ;
    assert(m * m * s == m * m * (gap.x * gap.x) + m * m * (gap.y * gap.y) + m * m * (gap.z
        * gap.z)) by (nonlinear_arith)
        requires
            s == gap.x * gap.x + gap.y * gap.y + gap.z * gap.z,
    ;
    assert(4 * len * (m * t) == 4 * len * (m * magnitude(gap.x)) + 4 * len * (m * magnitude(
        gap.y,
    )) + 4 * len * (m * magnitude(gap.z))) by (nonlinear_arith)
        requires
            t == magnitude(gap.x) + magnitude(gap.y) + magnitude(gap.z),
    ;
    lemma_chain_length(q, s, t, len, rest, l2);
}

} // verus!
