//! Balance and stepping: where the weight of the body rests, and where the
//! feet go next.
//!
//! Once per tick the two feet are looked at from the base frame, the frame
//! that stands upright below the neck. A foot within the foot radius of the
//! base origin is planted. The other foot then steps through the origin; with
//! no foot planted and the balance point far from the origin, the foot that
//! carries less steps to catch the body.

use crate::fixed::{
    lemma_product_bound, lemma_trunc_div_at_most, product, quotient, trunc_div, LIMIT, ONE,
};
use crate::frame::{Frame, FrameModel};
use crate::vec3::{lemma_dot_bound, lemma_norm_sq_bound, lemma_scaled_bound, Vec3, V3};
use vstd::prelude::*;

verus! {

/// Which foot carries the body.
#[derive(Clone, Copy, Debug, PartialEq, Eq, Structural)]
pub enum WeightDistribution {
    LeftPlanted,
    RightPlanted,
    SharedWeight,
}

impl Default for WeightDistribution {
    /// The weight is shared until a foot is found planted.
    fn default() -> (d: WeightDistribution)
        ensures
            d == WeightDistribution::SharedWeight,
    {
        WeightDistribution::SharedWeight
    }
}

/// The distances that tune the stepping.
#[derive(Clone, Copy, Debug, PartialEq, Eq, Structural)]
pub struct LocomotionParams {
    /// A foot closer to the base origin than this is planted.
    pub foot_radius: i64,
    /// How far the free foot steps through the origin, in drifts of the
    /// planted foot.
    pub step_multiplier: i64,
    /// A balance point farther from the base origin than this calls for a
    /// stagger step.
    pub stagger_threshold: i64,
}

impl LocomotionParams {
    /// Every distance is a stored length and the multiplier a stored factor.
    pub open spec fn wf(&self) -> bool {
        0 <= self.foot_radius <= LIMIT && 0 <= self.step_multiplier <= LIMIT && 0
            <= self.stagger_threshold <= LIMIT
    }

    /// Length of a stagger step: the foot radius times one more than the
    /// step multiplier.
    pub open spec fn step_size(&self) -> int {
        trunc_div(self.foot_radius * (self.step_multiplier + ONE), ONE as int)
    }

    /// The tuning with a foot radius of a tenth, steps of three drifts and a
    /// stagger threshold of two foot radii.
    pub fn standard() -> (p: LocomotionParams)
        ensures
            p.wf(),
            p.foot_radius == 100_000_000,
            p.step_multiplier == 3_000_000_000,
            p.stagger_threshold == 200_000_000,
    {
        LocomotionParams {
            foot_radius: 100_000_000,
            step_multiplier: 3_000_000_000,
            stagger_threshold: 200_000_000,
        }
    }

    /// Tells whether the tuning is well formed.
    pub fn is_wf(&self) -> (b: bool)
        ensures
            b == self.wf(),
    {
        0 <= self.foot_radius && self.foot_radius <= LIMIT && 0 <= self.step_multiplier
            && self.step_multiplier <= LIMIT && 0 <= self.stagger_threshold
            && self.stagger_threshold <= LIMIT
    }

    /// Length of a stagger step.
    pub fn stagger_step(&self) -> (s: i64)
        requires
            self.wf(),
        ensures
            s == self.step_size(),
            0 <= s <= 1_001 * LIMIT,
    {
        proof {
            lemma_product_bound(
                self.foot_radius as int,
                self.step_multiplier + ONE,
                1_000_000_000_000,
                1_001_000_000_000,
            );
            lemma_trunc_div_at_most(
                self.foot_radius * (self.step_multiplier + ONE),
                ONE as int,
                1_001_000_000_000_000,
            );
            assert(self.foot_radius * (self.step_multiplier + ONE) >= 0) by (nonlinear_arith)
                requires
                    self.foot_radius >= 0,
                    self.step_multiplier + ONE >= 0,
            ;
        }
        let n: i128 = product(self.foot_radius, self.step_multiplier + ONE);
        quotient(n, ONE as i128) as i64
    }
}

/// The stance planned for a tick, over the integers: what a `Stance` stands
/// for.
pub struct StanceModel {
    pub distribution: WeightDistribution,
    pub left_foot: FrameModel,
    pub right_foot: FrameModel,
    pub balance_point: V3,
}

/// The stance planned for a tick: who carries the weight, where the two
/// feet are to stand, and the balance point as seen from the base frame.
#[derive(Clone, Copy, Debug, PartialEq, Eq, Structural)]
pub struct Stance {
    pub distribution: WeightDistribution,
    pub left_foot: Frame,
    pub right_foot: Frame,
    pub balance_point: Vec3,
}

impl View for Stance {
    type V = StanceModel;

    open spec fn view(&self) -> StanceModel {
        StanceModel {
            distribution: self.distribution,
            left_foot: self.left_foot@,
            right_foot: self.right_foot@,
            balance_point: self.balance_point@,
        }
    }
}

/// The point `p` lies closer to the origin than `radius`.
pub open spec fn near(p: V3, radius: int) -> bool {
    p.norm_sq() < radius * radius
}

/// The weight distribution for this tick. With both feet near the origin the
/// previous one stays, so that it does not flicker; otherwise the one foot
/// that is near is planted, and with no foot near the weight is shared.
pub open spec fn classify(
    previous: WeightDistribution,
    left_near: bool,
    right_near: bool,
) -> WeightDistribution {
    if left_near && right_near {
        previous
    } else if left_near {
        WeightDistribution::LeftPlanted
    } else if right_near {
        WeightDistribution::RightPlanted
    } else {
        WeightDistribution::SharedWeight
    }
}

/// Where along the segment from `a` to `b` the point nearest to the origin
/// lies, as a fraction of the segment between zero and `ONE`. A segment
/// without length has the fraction zero.
pub open spec fn balance_fraction(a: V3, b: V3) -> int {
    let v = b.minus(a);
    let den = v.norm_sq();
    let num = a.negated().dot(v);
    if den == 0 || num <= 0 {
        0
    } else if num >= den {
        ONE as int
    } else {
        (num * ONE) / den
    }
}

/// The balance point: the point of the segment between the two feet that is
/// nearest to the origin.
pub open spec fn balance_point(a: V3, b: V3) -> V3 {
    a.plus(b.minus(a).scaled(balance_fraction(a, b)))
}

/// The balance point lies farther from the origin than `threshold`.
pub open spec fn staggering(balance: V3, threshold: int) -> bool {
    balance.norm_sq() > threshold * threshold
}

/// Target of the free foot beside a planted one: opposite the planted foot
/// through the base origin, `multiplier` times as far out.
pub open spec fn step_through(base: FrameModel, planted: V3, multiplier: int) -> FrameModel {
    base.offset(planted.scaled(multiplier).negated())
}

/// The step of length `size` from `from` toward the origin. The origin
/// itself has no direction and gives no step.
pub open spec fn step_toward_origin(from: V3, size: int) -> V3 {
    let len = from.length();
    if len == 0 {
        V3::zero()
    } else {
        V3 {
            x: trunc_div(-(from.x * size), len),
            y: trunc_div(-(from.y * size), len),
            z: trunc_div(-(from.z * size), len),
        }
    }
}

/// Target of the lighter foot in a stagger step: from the foot that carries
/// more, `size` toward the base origin.
pub open spec fn stagger_target(base: FrameModel, loaded: V3, size: int) -> FrameModel {
    base.offset(loaded.plus(step_toward_origin(loaded, size)))
}

/// The stance for this tick, from the previous weight distribution, the two
/// feet as they stand, and the base frame.
pub open spec fn planned(
    previous: WeightDistribution,
    left: FrameModel,
    right: FrameModel,
    base: FrameModel,
    params: LocomotionParams,
) -> StanceModel {
    let l = base.to_local(left.position);
    let r = base.to_local(right.position);
    let distribution = classify(
        previous,
        near(l, params.foot_radius as int),
        near(r, params.foot_radius as int),
    );
    let balance = balance_point(l, r);
    match distribution {
        WeightDistribution::RightPlanted => StanceModel {
            distribution,
            left_foot: step_through(base, r, params.step_multiplier as int),
            right_foot: right,
            balance_point: balance,
        },
        WeightDistribution::LeftPlanted => StanceModel {
            distribution,
            left_foot: left,
            right_foot: step_through(base, l, params.step_multiplier as int),
            balance_point: balance,
        },
        WeightDistribution::SharedWeight => if !staggering(
            balance,
            params.stagger_threshold as int,
        ) {
            StanceModel { distribution, left_foot: left, right_foot: right, balance_point: balance }
        } else if balance.minus(l).norm_sq() < balance.minus(r).norm_sq() {
            StanceModel {
                distribution,
                left_foot: left,
                right_foot: stagger_target(base, l, params.step_size()),
                balance_point: balance,
            }
        } else {
            StanceModel {
                distribution,
                left_foot: stagger_target(base, r, params.step_size()),
                right_foot: right,
                balance_point: balance,
            }
        },
    }
}

/// Tells whether `p` lies closer to the origin than `radius`.
pub fn is_near(p: Vec3, radius: i64) -> (b: bool)
    requires
        p@.within(8 * LIMIT),
        0 <= radius <= LIMIT,
    ensures
        b == near(p@, radius as int),
{
    proof {
        lemma_product_bound(radius as int, radius as int, 1_000_000_000_000, 1_000_000_000_000);
        assert(radius * radius >= 0) by (nonlinear_arith);
    }
    p.norm_squared() < product(radius, radius) as u128
}

/// The weight distribution for this tick.
pub fn classify_weight(
    previous: WeightDistribution,
    left_near: bool,
    right_near: bool,
) -> (d: WeightDistribution)
    ensures
        d == classify(previous, left_near, right_near),
        left_near && right_near ==> d == previous,
{
    if left_near && right_near {
        previous
    } else if left_near {
        WeightDistribution::LeftPlanted
    } else if right_near {
        WeightDistribution::RightPlanted
    } else {
        WeightDistribution::SharedWeight
    }
}

/// The fraction of the segment at which the balance point lies.
fn balance_fraction_of(a: Vec3, b: Vec3) -> (t: i64)
    requires
        a@.within(8 * LIMIT),
        b@.within(8 * LIMIT),
    ensures
        t == balance_fraction(a@, b@),
        0 <= t <= ONE,
{
    let v: Vec3 = b.minus(a);
    proof {
        lemma_norm_sq_bound(v@, 16_000_000_000_000);
        lemma_dot_bound(a@.negated(), v@, 8_000_000_000_000, 16_000_000_000_000);
    }
    let den: i128 = v.dot(v);
    let num: i128 = a.negated().dot(v);
    if den == 0 || num <= 0 {
        0
    } else if num >= den {
        ONE
    } else {
        proof {
            lemma_trunc_div_at_most(num * ONE, den as int, ONE as int);
            assert(num * ONE >= 0);
            vstd::arithmetic::div_mod::lemma_div_pos_is_pos(num * ONE, den as int);
        }
        quotient(num * (ONE as i128), den) as i64
    }
}

/// The point of the segment between `a` and `b` nearest to the origin.
pub fn balance_point_of(a: Vec3, b: Vec3) -> (p: Vec3)
    requires
        a@.within(8 * LIMIT),
        b@.within(8 * LIMIT),
    ensures
        p@ == balance_point(a@, b@),
        p@.within(24 * LIMIT),
{
    let t: i64 = balance_fraction_of(a, b);
    let v: Vec3 = b.minus(a);
    proof {
        lemma_scaled_bound(v@, t as int, 16_000_000_000_000, ONE as int, 16_000_000_000_000);
    }
    a.plus(v.scaled(t))
}

/// Tells whether the balance point lies farther out than `threshold`.
pub fn is_staggering(balance: Vec3, threshold: i64) -> (b: bool)
    requires
        balance@.within(24 * LIMIT),
        0 <= threshold <= LIMIT,
    ensures
        b == staggering(balance@, threshold as int),
{
    proof {
        lemma_product_bound(
            threshold as int,
            threshold as int,
            1_000_000_000_000,
            1_000_000_000_000,
        );
        assert(threshold * threshold >= 0) by (nonlinear_arith);
    }
    balance.norm_squared() > product(threshold, threshold) as u128
}

/// Target of the free foot beside a planted one.
pub fn step_through_of(base: &Frame, planted: Vec3, multiplier: i64) -> (f: Frame)
    requires
        base.wf(),
        planted@.within(8 * LIMIT),
        0 <= multiplier <= LIMIT,
    ensures
        f@ == step_through(base@, planted@, multiplier as int),
        f.wf(),
{
    proof {
        lemma_scaled_bound(
            planted@,
            multiplier as int,
            8_000_000_000_000,
            1_000_000_000_000,
            8_000_000_000_000_000,
        );
    }
    base.offset(planted.scaled(multiplier).negated())
}

/// One component of a step toward the origin.
fn step_component(c: i64, size: i64, len: i64) -> (s: i64)
    requires
        -len <= c <= len,
        0 < len <= 14 * LIMIT,
        0 <= size <= 1_001 * LIMIT,
    ensures
        s == trunc_div(-(c * size), len as int),
        -size <= s <= size,
{
    proof {
        lemma_product_bound(c as int, size as int, 14_000_000_000_000, 1_001_000_000_000_000);
        assert(-(size * len) <= -(c * size) <= size * len) by (nonlinear_arith)
            requires
                -len <= c <= len,
                0 <= size,
        ;
        lemma_trunc_div_at_most(-(c * size), len as int, size as int);
    }
    quotient(-product(c, size), len as i128) as i64
}

/// Target of the lighter foot in a stagger step.
pub fn stagger_target_of(base: &Frame, loaded: Vec3, size: i64) -> (f: Frame)
    requires
        base.wf(),
        loaded@.within(8 * LIMIT),
        0 <= size <= 1_001 * LIMIT,
    ensures
        f@ == stagger_target(base@, loaded@, size as int),
        f.wf(),
{
    let len: i64 = loaded.length();
    proof {
        lemma_norm_sq_bound(loaded@, 8_000_000_000_000);
        crate::fixed::lemma_floor_sqrt_at_most(
            len as int,
            loaded@.norm_sq(),
            13_999_999_999_999,
        );
        assert(loaded.x * loaded.x >= 0 && loaded.y * loaded.y >= 0 && loaded.z * loaded.z >= 0)
            by (nonlinear_arith);
        crate::fixed::lemma_root_bounds_component(loaded.x as int, loaded@.norm_sq(), len as int);
        crate::fixed::lemma_root_bounds_component(loaded.y as int, loaded@.norm_sq(), len as int);
        crate::fixed::lemma_root_bounds_component(loaded.z as int, loaded@.norm_sq(), len as int);
    }
    let step: Vec3 = if len == 0 {
        Vec3::zero()
    } else {
        Vec3 {
            x: step_component(loaded.x, size, len),
            y: step_component(loaded.y, size, len),
            z: step_component(loaded.z, size, len),
        }
    };
    base.offset(loaded.plus(step))
}

/// Plans the stance for this tick: classifies the weight distribution, finds
/// the balance point, and gives each foot its target. The planted foot
/// stays where it stands; with both feet near the origin the distribution
/// stays what it was.
pub fn plan_step(
    previous: WeightDistribution,
    left: &Frame,
    right: &Frame,
    base: &Frame,
    params: &LocomotionParams,
) -> (s: Stance)
    requires
        left.wf(),
        right.wf(),
        base.wf(),
        params.wf(),
    ensures
        s@ == planned(previous, left@, right@, base@, *params),
        s.left_foot.wf(),
        s.right_foot.wf(),
        s.balance_point@.within(24 * LIMIT),
        near(base@.to_local(left@.position), params.foot_radius as int) && near(
            base@.to_local(right@.position),
            params.foot_radius as int,
        ) ==> s.distribution == previous,
{
    let l: Vec3 = base.to_local(left.position);
    let r: Vec3 = base.to_local(right.position);
    let distribution: WeightDistribution = classify_weight(
        previous,
        is_near(l, params.foot_radius),
        is_near(r, params.foot_radius),
    );
    let balance: Vec3 = balance_point_of(l, r);
    match distribution {
        WeightDistribution::RightPlanted => Stance {
            distribution,
            left_foot: step_through_of(base, r, params.step_multiplier),
            right_foot: *right,
            balance_point: balance,
        },
        WeightDistribution::LeftPlanted => Stance {
            distribution,
            left_foot: *left,
            right_foot: step_through_of(base, l, params.step_multiplier),
            balance_point: balance,
        },
        WeightDistribution::SharedWeight => {
            if !is_staggering(balance, params.stagger_threshold) {
                Stance {
                    distribution,
                    left_foot: *left,
                    right_foot: *right,
                    balance_point: balance,
                }
            } else if balance.minus(l).norm_squared() < balance.minus(r).norm_squared() {
                Stance {
                    distribution,
                    left_foot: *left,
                    right_foot: stagger_target_of(base, l, params.stagger_step()),
                    balance_point: balance,
                }
            } else {
                Stance {
                    distribution,
                    left_foot: stagger_target_of(base, r, params.stagger_step()),
                    right_foot: *right,
                    balance_point: balance,
                }
            }
        },
    }
}

/// Hysteresis: with both feet within the foot radius of the base origin the
/// weight distribution stays what it was.
pub proof fn lemma_hysteresis(
    previous: WeightDistribution,
    left: FrameModel,
    right: FrameModel,
    base: FrameModel,
    params: LocomotionParams,
)
    requires
        near(base.to_local(left.position), params.foot_radius as int),
        near(base.to_local(right.position), params.foot_radius as int),
    ensures
        planned(previous, left, right, base, params).distribution == previous,
{
}

/// A planted foot stays where it stands, and the other foot steps through
/// the base origin.
pub proof fn lemma_planted_foot_stays(
    previous: WeightDistribution,
    left: FrameModel,
    right: FrameModel,
    base: FrameModel,
    params: LocomotionParams,
)
    ensures
        planned(previous, left, right, base, params).distribution
            == WeightDistribution::LeftPlanted ==> planned(
            previous,
            left,
            right,
            base,
            params,
        ).left_foot == left && planned(previous, left, right, base, params).right_foot
            == step_through(
            base,
            base.to_local(left.position),
            params.step_multiplier as int,
        ),
        planned(previous, left, right, base, params).distribution
            == WeightDistribution::RightPlanted ==> planned(
            previous,
            left,
            right,
            base,
            params,
        ).right_foot == right && planned(previous, left, right, base, params).left_foot
            == step_through(
            base,
            base.to_local(right.position),
            params.step_multiplier as int,
        ),
{
}

/// Stagger: with the weight shared and the balance point beyond the stagger
/// threshold, one foot keeps its frame and the other is sent to the stagger
/// target of the first. With the balance point within the threshold both
/// feet keep their frames.
pub proof fn lemma_stagger_moves_one_foot(
    previous: WeightDistribution,
    left: FrameModel,
    right: FrameModel,
    base: FrameModel,
    params: LocomotionParams,
)
    requires
        planned(previous, left, right, base, params).distribution
            == WeightDistribution::SharedWeight,
    ensures
        ({
            let s = planned(previous, left, right, base, params);
            let l = base.to_local(left.position);
            let r = base.to_local(right.position);
            if staggering(s.balance_point, params.stagger_threshold as int) {
                (s.left_foot == left && s.right_foot == stagger_target(
                    base,
                    l,
                    params.step_size(),
                )) || (s.right_foot == right && s.left_foot == stagger_target(
                    base,
                    r,
                    params.step_size(),
                ))
            } else {
                s.left_foot == left && s.right_foot == right
            }
        }),
{
}

} // verus!
