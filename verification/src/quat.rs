//! Orientations: quaternions of fixed-point scalars, kept at unit length.

use crate::fixed::{
    floor_sqrt, is_floor_sqrt, isqrt, lemma_floor_sqrt_unique, lemma_one_squared,
    lemma_product_bound, lemma_root_bounds_component, lemma_trunc_div,
    lemma_trunc_div_at_most, magnitude, product, quotient, trunc_div, LIMIT, ONE, ONE_SQ, WIDE,
};
use crate::vec3::{Vec3, V3};
use vstd::prelude::*;

verus! {

/// How far the squared norm of a unit quaternion may lie from `ONE * ONE`.
pub const UNIT_TOLERANCE: i64 = 4_000_000_004;

/// Smallest norm from which a quaternion is rescaled to unit length.
pub const MIN_NORM: i64 = 500_000_000;

/// A quaternion of four integers: what a `Quat` stands for.
pub struct Q4 {
    pub x: int,
    pub y: int,
    pub z: int,
    pub w: int,
}

impl Q4 {
    /// The rotation that turns nothing.
    pub open spec fn identity() -> Q4 {
        Q4 { x: 0, y: 0, z: 0, w: ONE as int }
    }

    /// Every component has magnitude at most `b`.
    pub open spec fn within(self, b: int) -> bool {
        -b <= self.x <= b && -b <= self.y <= b && -b <= self.z <= b && -b <= self.w <= b
    }

    /// Squared norm, in squared raw units.
    pub open spec fn norm_sq(self) -> int {
        self.x * self.x + self.y * self.y + self.z * self.z + self.w * self.w
    }

    /// The norm is one, up to the rounding of one rescaling.
    pub open spec fn is_unit(self) -> bool {
        ONE_SQ - UNIT_TOLERANCE <= self.norm_sq() <= ONE_SQ + UNIT_TOLERANCE
    }

    /// The opposite rotation.
    pub open spec fn conjugate(self) -> Q4 {
        Q4 { x: -self.x, y: -self.y, z: -self.z, w: self.w }
    }

    /// Componentwise sum.
    pub open spec fn plus(self, o: Q4) -> Q4 {
        Q4 { x: self.x + o.x, y: self.y + o.y, z: self.z + o.z, w: self.w + o.w }
    }

    /// First row of the rotation matrix, in squared raw units.
    pub open spec fn row_x(self) -> V3 {
        V3 {
            x: self.w * self.w + self.x * self.x - self.y * self.y - self.z * self.z,
            y: 2 * (self.x * self.y - self.w * self.z),
            z: 2 * (self.x * self.z + self.w * self.y),
        }
    }

    /// Second row of the rotation matrix, in squared raw units.
    pub open spec fn row_y(self) -> V3 {
        V3 {
            x: 2 * (self.x * self.y + self.w * self.z),
            y: self.w * self.w - self.x * self.x + self.y * self.y - self.z * self.z,
            z: 2 * (self.y * self.z - self.w * self.x),
        }
    }

    /// Third row of the rotation matrix, in squared raw units.
    pub open spec fn row_z(self) -> V3 {
        V3 {
            x: 2 * (self.x * self.z - self.w * self.y),
            y: 2 * (self.y * self.z + self.w * self.x),
            z: self.w * self.w - self.x * self.x - self.y * self.y + self.z * self.z,
        }
    }

    /// The vector `v` turned by this rotation: the rotation matrix applied to
    /// `v`, each component rounded toward zero once.
    pub open spec fn rotate(self, v: V3) -> V3 {
        V3 {
            x: trunc_div(self.row_x().dot(v), ONE_SQ as int),
            y: trunc_div(self.row_y().dot(v), ONE_SQ as int),
            z: trunc_div(self.row_z().dot(v), ONE_SQ as int),
        }
    }

    /// The quaternion divided by its rounded-down norm.
    pub open spec fn rescaled(self) -> Q4 {
        let n = floor_sqrt(self.norm_sq());
        Q4 {
            x: trunc_div(self.x * ONE, n),
            y: trunc_div(self.y * ONE, n),
            z: trunc_div(self.z * ONE, n),
            w: trunc_div(self.w * ONE, n),
        }
    }

    /// Unit quaternion for `self`: `self` where it is one already, `self`
    /// rescaled where its norm is at least `MIN_NORM`, and `fallback` where
    /// it is too short to carry a direction.
    pub open spec fn normalized_or(self, fallback: Q4) -> Q4 {
        if self.is_unit() {
            self
        } else if floor_sqrt(self.norm_sq()) >= MIN_NORM {
            self.rescaled()
        } else {
            fallback
        }
    }

    /// Half the product of the pure quaternion `omega` with `self`: the first
    /// order change of the orientation under the small rotation `omega`.
    pub open spec fn spin(self, omega: V3) -> Q4 {
        Q4 {
            x: trunc_div(self.w * omega.x + omega.y * self.z - omega.z * self.y, 2 * ONE),
            y: trunc_div(self.w * omega.y + omega.z * self.x - omega.x * self.z, 2 * ONE),
            z: trunc_div(self.w * omega.z + omega.x * self.y - omega.y * self.x, 2 * ONE),
            w: trunc_div(-(omega.x * self.x + omega.y * self.y + omega.z * self.z), 2 * ONE),
        }
    }

    /// The orientation after the small rotation `omega`, back at unit length.
    pub open spec fn turned(self, omega: V3) -> Q4 {
        self.plus(self.spin(omega)).normalized_or(self)
    }
}

/// An orientation: a quaternion of four fixed-point scalars.
#[derive(Clone, Copy, Debug, PartialEq, Eq, Structural)]
pub struct Quat {
    pub x: i64,
    pub y: i64,
    pub z: i64,
    pub w: i64,
}

impl View for Quat {
    type V = Q4;

    open spec fn view(&self) -> Q4 {
        Q4 { x: self.x as int, y: self.y as int, z: self.z as int, w: self.w as int }
    }
}

/// The squared norm of a quaternion is bounded by four squared bounds.
pub proof fn lemma_quat_norm_sq_bound(q: Q4, b: int)
    requires
        q.within(b),
    ensures
        0 <= q.norm_sq() <= 4 * (b * b),
{
    lemma_product_bound(q.x, q.x, b, b);
    lemma_product_bound(q.y, q.y, b, b);
    lemma_product_bound(q.z, q.z, b, b);
    lemma_product_bound(q.w, q.w, b, b);
    assert(q.x * q.x >= 0 && q.y * q.y >= 0 && q.z * q.z >= 0 && q.w * q.w >= 0)
        by (nonlinear_arith);
}

/// No component of a quaternion exceeds its rounded-down norm.
pub proof fn lemma_components_below_norm(q: Q4, n: int)
    requires
        is_floor_sqrt(n, q.norm_sq()),
    ensures
        q.within(n),
{
    assert(q.x * q.x >= 0 && q.y * q.y >= 0 && q.z * q.z >= 0 && q.w * q.w >= 0)
        by (nonlinear_arith);
    lemma_root_bounds_component(q.x, q.norm_sq(), n);
    lemma_root_bounds_component(q.y, q.norm_sq(), n);
    lemma_root_bounds_component(q.z, q.norm_sq(), n);
    lemma_root_bounds_component(q.w, q.norm_sq(), n);
}

/// The components of a unit quaternion barely exceed one.
pub proof fn lemma_unit_components(q: Q4)
    requires
        q.is_unit(),
    ensures
        q.within(ONE + 2),
{
    assert(q.x * q.x >= 0 && q.y * q.y >= 0 && q.z * q.z >= 0 && q.w * q.w >= 0)
        by (nonlinear_arith);
    lemma_root_bounds_component(q.x, q.norm_sq(), 1_000_000_002);
    lemma_root_bounds_component(q.y, q.norm_sq(), 1_000_000_002);
    lemma_root_bounds_component(q.z, q.norm_sq(), 1_000_000_002);
    lemma_root_bounds_component(q.w, q.norm_sq(), 1_000_000_002);
}

/// The norm of a unit quaternion, rounded down, lies within three raw units
/// of `ONE`: within three billionths of one.
pub proof fn lemma_unit_norm(q: Q4, n: int)
    requires
        q.is_unit(),
        is_floor_sqrt(n, q.norm_sq()),
    ensures
        ONE - 3 <= n <= ONE + 2,
{
    crate::fixed::lemma_floor_sqrt_at_least(n, q.norm_sq(), 999_999_997);
    crate::fixed::lemma_floor_sqrt_at_most(n, q.norm_sq(), 1_000_000_002);
}

/// Every rotation leaves the zero vector where it is.
pub proof fn lemma_rotate_zero(q: Q4)
    ensures
        q.rotate(V3::zero()) == V3::zero(),
{
    let zero = V3::zero();
    assert(q.row_x().dot(zero) == 0 && q.row_y().dot(zero) == 0 && q.row_z().dot(zero) == 0);
}

/// Twice a product is at most the sum of the squares.
proof fn lemma_twice_product(a: int, b: int)
    by (nonlinear_arith)
    ensures
        -(a * a + b * b) <= 2 * (a * b) <= a * a + b * b,
{
    assert((a - b) * (a - b) >= 0);
    assert((a + b) * (a + b) >= 0);
}

/// No entry of the rotation matrix exceeds the squared norm.
pub proof fn lemma_rotation_entries(q: Q4)
    ensures
        q.row_x().within(q.norm_sq()),
        q.row_y().within(q.norm_sq()),
        q.row_z().within(q.norm_sq()),
{
    assert(q.x * q.x >= 0 && q.y * q.y >= 0 && q.z * q.z >= 0 && q.w * q.w >= 0)
        by (nonlinear_arith);
    lemma_twice_product(q.x, q.y);
    lemma_twice_product(q.w, q.z);
    lemma_twice_product(q.x, q.z);
    lemma_twice_product(q.w, q.y);
    lemma_twice_product(q.y, q.z);
    lemma_twice_product(q.w, q.x);
}

/// One row of a unit rotation applied to a bounded vector stays within four
/// times the bound.
proof fn lemma_row_bound(row: V3, v: V3, b: int)
    requires
        row.within(ONE_SQ + UNIT_TOLERANCE),
        v.within(b),
        0 <= b,
    ensures
        magnitude(row.dot(v)) <= 3 * (1_000_000_004_000_000_004 * b),
        magnitude(trunc_div(row.dot(v), ONE_SQ as int)) <= 4 * b,
{
    lemma_product_bound(row.x, v.x, 1_000_000_004_000_000_004, b);
    lemma_product_bound(row.y, v.y, 1_000_000_004_000_000_004, b);
    lemma_product_bound(row.z, v.z, 1_000_000_004_000_000_004, b);
    assert((4 * b) * 1_000_000_000_000_000_000 == 4_000_000_000_000_000_000 * b);
    lemma_trunc_div_at_most(row.dot(v), ONE_SQ as int, 4 * b);
}

/// A unit rotation stretches no component beyond four times the largest.
pub proof fn lemma_rotate_bound(q: Q4, v: V3, b: int)
    requires
        q.is_unit(),
        v.within(b),
        0 <= b,
    ensures
        q.rotate(v).within(4 * b),
{
    lemma_rotation_entries(q);
    lemma_row_bound(q.row_x(), v, b);
    lemma_row_bound(q.row_y(), v, b);
    lemma_row_bound(q.row_z(), v, b);
}

impl Quat {
    /// The quaternion with the given raw components.
    pub fn new(x: i64, y: i64, z: i64, w: i64) -> (q: Quat)
        ensures
            q@ == (Q4 { x: x as int, y: y as int, z: z as int, w: w as int }),
    {
        Quat { x, y, z, w }
    }

    /// The rotation that turns nothing.
    pub fn identity() -> (q: Quat)
        ensures
            q@ == Q4::identity(),
            q@.is_unit(),
    {
        proof {
            lemma_one_squared();
        }
        Quat { x: 0, y: 0, z: 0, w: ONE }
    }

    /// Squared norm of a quaternion inside the wide range.
    pub fn norm_squared(&self) -> (n: u128)
        requires
            self@.within(WIDE as int),
        ensures
            n == self@.norm_sq(),
    {
        proof {
            lemma_quat_norm_sq_bound(self@, WIDE as int);
            lemma_product_bound(self.x as int, self.x as int, WIDE as int, WIDE as int);
            lemma_product_bound(self.y as int, self.y as int, WIDE as int, WIDE as int);
            lemma_product_bound(self.z as int, self.z as int, WIDE as int, WIDE as int);
            lemma_product_bound(self.w as int, self.w as int, WIDE as int, WIDE as int);
        }
        let s: i128 = product(self.x, self.x) + product(self.y, self.y) + product(self.z, self.z)
            + product(self.w, self.w);
        s as u128
    }

    /// Tells whether the norm is one up to the tolerance.
    pub fn is_unit(&self) -> (b: bool)
        ensures
            b == self@.is_unit(),
    {
        let lim: i64 = ONE + 2;
        if self.x < -lim || self.x > lim || self.y < -lim || self.y > lim || self.z < -lim
            || self.z > lim || self.w < -lim || self.w > lim {
            proof {
                if self@.is_unit() {
                    lemma_unit_components(self@);
                }
            }
            return false;
        }
        let n: u128 = self.norm_squared();
        let one_sq: u128 = 1_000_000_000_000_000_000;
        let tol: u128 = 4_000_000_004;
        one_sq - tol <= n && n <= one_sq + tol
    }

    /// The opposite rotation.
    pub fn conjugate(&self) -> (q: Quat)
        requires
            self@.within(i64::MAX as int),
        ensures
            q@ == self@.conjugate(),
            self@.is_unit() ==> q@.is_unit(),
    {
        assert((-self.x) * (-self.x) == self.x * self.x && (-self.y) * (-self.y) == self.y
            * self.y && (-self.z) * (-self.z) == self.z * self.z) by (nonlinear_arith);
        Quat { x: -self.x, y: -self.y, z: -self.z, w: self.w }
    }
}

/// The sum of four numbers, squared, is at most four times the sum of their squares.
proof fn lemma_sum_of_four(a: int, b: int, c: int, d: int)
    by (nonlinear_arith)
    ensures
        (a + b + c + d) * (a + b + c + d) <= 4 * (a * a + b * b + c * c + d * d),
{
    assert((a - b) * (a - b) >= 0);
    assert((a - c) * (a - c) >= 0);
    assert((a - d) * (a - d) >= 0);
    assert((b - c) * (b - c) >= 0);
    assert((b - d) * (b - d) >= 0);
    assert((c - d) * (c - d) >= 0);
}

/// What one component keeps when it is multiplied by `ONE` and divided by `n`.
proof fn lemma_rescaled_component(c: int, n: int) -> (a: int)
    requires
        n > 0,
    ensures
        a >= 0,
        a * a == trunc_div(c * ONE, n) * trunc_div(c * ONE, n),
        (n * n) * (a * a) <= ONE_SQ * (c * c),
        ONE_SQ * (c * c) < (n * n) * ((a + 1) * (a + 1)),
{
    let t = trunc_div(c * ONE, n);
    lemma_trunc_div(c * ONE, n);
    let a = magnitude(t);
    let m = magnitude(c * ONE);
    assert(a * a == t * t) by (nonlinear_arith)
        requires
            a == magnitude(t),
    ;
    assert(m * m == 1_000_000_000_000_000_000 * (c * c)) by (nonlinear_arith)
        requires
            m == magnitude(c * 1_000_000_000),
    ;
    assert((n * n) * (a * a) <= m * m) by (nonlinear_arith)
        requires
            0 <= a * n <= m,
    ;
    assert(m * m < (n * n) * ((a + 1) * (a + 1))) by (nonlinear_arith)
        requires
            0 <= m < (a + 1) * n,
    ;
    a
}

/// From above: a rescaled norm cannot exceed one by more than the tolerance.
proof fn lemma_rescaled_upper(n: int, s: int, t: int)
    by (nonlinear_arith)
    requires
        n >= 500_000_000,
        s < (n + 1) * (n + 1),
        0 <= t,
        (n * n) * t <= 1_000_000_000_000_000_000 * s,
    ensures
        t <= 1_000_000_000_000_000_000 + 4_000_000_004,
{
    assert((n * n) * t <= 1_000_000_000_000_000_000 * (n * n) + 2_000_000_000_000_000_000 * n);
    if t >= 1_000_000_000_000_000_000 + 4_000_000_005 {
        assert((n * n) * t >= (n * n) * (1_000_000_000_000_000_000 + 4_000_000_005));
        assert((n * n) * 4_000_000_005 > 2_000_000_000_000_000_000 * n);
    }
}

/// From below: a rescaled norm cannot fall short of one by more than the tolerance.
proof fn lemma_rescaled_lower(n: int, s: int, t: int, sum: int)
    by (nonlinear_arith)
    requires
        n >= 1,
        n * n <= s,
        0 <= sum,
        0 <= t,
        sum * sum <= 4 * t,
        1_000_000_000_000_000_000 * s < (n * n) * (t + 2 * sum + 4),
    ensures
        t >= 1_000_000_000_000_000_000 - 4_000_000_004,
{
    assert(1_000_000_000_000_000_000 * (n * n) < (n * n) * (t + 2 * sum + 4));
    assert(1_000_000_000_000_000_000 < t + 2 * sum + 4);
    if t <= 1_000_000_000_000_000_000 - 4_000_000_005 {
        assert(sum * sum < 1_999_999_996 * 1_999_999_996);
        assert(sum < 1_999_999_996);
    }
}

/// A quaternion divided by its rounded-down norm is a unit quaternion, provided
/// the norm is at least `MIN_NORM`.
pub proof fn lemma_rescaled_is_unit(q: Q4, n: int)
    requires
        is_floor_sqrt(n, q.norm_sq()),
        n >= MIN_NORM,
    ensures
        floor_sqrt(q.norm_sq()) == n,
        q.rescaled().is_unit(),
        q.rescaled().within(ONE as int),
{
    lemma_floor_sqrt_unique(n, q.norm_sq());
    let r = q.rescaled();
    let ax = lemma_rescaled_component(q.x, n);
    let ay = lemma_rescaled_component(q.y, n);
    let az = lemma_rescaled_component(q.z, n);
    let aw = lemma_rescaled_component(q.w, n);
    let t = r.norm_sq();
    let s = q.norm_sq();
    let nn = n * n;
    assert(t == ax * ax + ay * ay + az * az + aw * aw);
    assert(nn * t == nn * (ax * ax) + nn * (ay * ay) + nn * (az * az) + nn * (aw * aw))
        by (nonlinear_arith)
        requires
            t == ax * ax + ay * ay + az * az + aw * aw,
    ;
    assert(1_000_000_000_000_000_000 * s == 1_000_000_000_000_000_000 * (q.x * q.x)
        + 1_000_000_000_000_000_000 * (q.y * q.y) + 1_000_000_000_000_000_000 * (q.z * q.z)
        + 1_000_000_000_000_000_000 * (q.w * q.w));
    assert(0 <= t) by (nonlinear_arith)
        requires
            t == ax * ax + ay * ay + az * az + aw * aw,
    ;
    lemma_rescaled_upper(n, s, t);
    let sum = ax + ay + az + aw;
    lemma_sum_of_four(ax, ay, az, aw);
    assert(nn * (t + 2 * sum + 4) == nn * ((ax + 1) * (ax + 1)) + nn * ((ay + 1) * (ay + 1)) + nn
        * ((az + 1) * (az + 1)) + nn * ((aw + 1) * (aw + 1))) by (nonlinear_arith)
        requires
            t == ax * ax + ay * ay + az * az + aw * aw,
            sum == ax + ay + az + aw,
    ;
    lemma_rescaled_lower(n, s, t, sum);
    lemma_components_below_norm(q, n);
    lemma_product_bound(q.x, ONE as int, n, ONE as int);
    lemma_product_bound(q.y, ONE as int, n, ONE as int);
    lemma_product_bound(q.z, ONE as int, n, ONE as int);
    lemma_product_bound(q.w, ONE as int, n, ONE as int);
    assert(n * ONE == ONE * n) by (nonlinear_arith);
    lemma_trunc_div_at_most(q.x * ONE, n, ONE as int);
    lemma_trunc_div_at_most(q.y * ONE, n, ONE as int);
    lemma_trunc_div_at_most(q.z * ONE, n, ONE as int);
    lemma_trunc_div_at_most(q.w * ONE, n, ONE as int);
}

/// One row of the rotation matrix times a vector, divided by `ONE_SQ`.
fn row_times(rx: i128, ry: i128, rz: i128, v: Vec3) -> (c: i64)
    requires
        (V3 { x: rx as int, y: ry as int, z: rz as int }).within(ONE_SQ + UNIT_TOLERANCE),
        v@.within(WIDE / 4),
    ensures
        c == trunc_div((V3 { x: rx as int, y: ry as int, z: rz as int }).dot(v@), ONE_SQ as int),
{
    let ghost row = V3 { x: rx as int, y: ry as int, z: rz as int };
    proof {
        lemma_product_bound(rx as int, v.x as int, 1_000_000_004_000_000_004, WIDE / 4);
        lemma_product_bound(ry as int, v.y as int, 1_000_000_004_000_000_004, WIDE / 4);
        lemma_product_bound(rz as int, v.z as int, 1_000_000_004_000_000_004, WIDE / 4);
        lemma_row_bound(row, v@, WIDE / 4);
    }
    let n: i128 = rx * (v.x as i128) + ry * (v.y as i128) + rz * (v.z as i128);
    quotient(n, ONE_SQ) as i64
}

/// One component of a spin: a sum of three products, halved and divided by `ONE`.
fn spin_component(a: i64, p: i64, b: i64, q: i64, c: i64, r: i64) -> (s: i64)
    requires
        -(ONE + 2) <= a <= ONE + 2,
        -(ONE + 2) <= b <= ONE + 2,
        -(ONE + 2) <= c <= ONE + 2,
        -(WIDE / 4) <= p <= WIDE / 4,
        -(WIDE / 4) <= q <= WIDE / 4,
        -(WIDE / 4) <= r <= WIDE / 4,
    ensures
        s == trunc_div(a * p + b * q - c * r, 2 * ONE),
        -(WIDE / 2) <= s <= WIDE / 2,
{
    proof {
        lemma_product_bound(a as int, p as int, 1_000_000_002, 0x1000_0000_0000_0000);
        lemma_product_bound(b as int, q as int, 1_000_000_002, 0x1000_0000_0000_0000);
        lemma_product_bound(c as int, r as int, 1_000_000_002, 0x1000_0000_0000_0000);
        lemma_trunc_div_at_most(a * p + b * q - c * r, 2_000_000_000, 0x2000_0000_0000_0000);
    }
    let n: i128 = product(a, p) + product(b, q) - product(c, r);
    quotient(n, 2 * (ONE as i128)) as i64
}

impl Quat {
    /// Turns the vector `v` by this rotation.
    pub fn rotate(&self, v: Vec3) -> (r: Vec3)
        requires
            self@.is_unit(),
            v@.within(WIDE / 4),
        ensures
            r@ == self@.rotate(v@),
            v.stored() ==> r@.within(4 * LIMIT),
    {
        proof {
            lemma_unit_components(self@);
            lemma_rotation_entries(self@);
            lemma_product_bound(self.x as int, self.x as int, 1_000_000_002, 1_000_000_002);
            lemma_product_bound(self.y as int, self.y as int, 1_000_000_002, 1_000_000_002);
            lemma_product_bound(self.z as int, self.z as int, 1_000_000_002, 1_000_000_002);
            lemma_product_bound(self.w as int, self.w as int, 1_000_000_002, 1_000_000_002);
            lemma_product_bound(self.x as int, self.y as int, 1_000_000_002, 1_000_000_002);
            lemma_product_bound(self.x as int, self.z as int, 1_000_000_002, 1_000_000_002);
            lemma_product_bound(self.y as int, self.z as int, 1_000_000_002, 1_000_000_002);
            lemma_product_bound(self.w as int, self.x as int, 1_000_000_002, 1_000_000_002);
            lemma_product_bound(self.w as int, self.y as int, 1_000_000_002, 1_000_000_002);
            lemma_product_bound(self.w as int, self.z as int, 1_000_000_002, 1_000_000_002);
            if v.stored() {
                lemma_rotate_bound(self@, v@, LIMIT as int);
            }
        }
        let xx: i128 = product(self.x, self.x);
        let yy: i128 = product(self.y, self.y);
        let zz: i128 = product(self.z, self.z);
        let ww: i128 = product(self.w, self.w);
        let xy: i128 = product(self.x, self.y);
        let xz: i128 = product(self.x, self.z);
        let yz: i128 = product(self.y, self.z);
        let wx: i128 = product(self.w, self.x);
        let wy: i128 = product(self.w, self.y);
        let wz: i128 = product(self.w, self.z);
        Vec3 {
            x: row_times(ww + xx - yy - zz, 2 * (xy - wz), 2 * (xz + wy), v),
            y: row_times(2 * (xy + wz), ww - xx + yy - zz, 2 * (yz - wx), v),
            z: row_times(2 * (xz - wy), 2 * (yz + wx), ww - xx - yy + zz, v),
        }
    }

    /// Unit quaternion for `self`, or `fallback` where `self` is too short.
    pub fn normalized_or(self, fallback: Quat) -> (q: Quat)
        requires
            self@.within(WIDE as int),
            fallback@.is_unit(),
        ensures
            q@ == self@.normalized_or(fallback@),
            q@.is_unit(),
    {
        proof {
            lemma_quat_norm_sq_bound(self@, WIDE as int);
        }
        let n2: u128 = self.norm_squared();
        let one_sq: u128 = 1_000_000_000_000_000_000;
        let tol: u128 = 4_000_000_004;
        if one_sq - tol <= n2 && n2 <= one_sq + tol {
            return self;
        }
        let n: u64 = isqrt(n2);
        if n >= MIN_NORM as u64 {
            proof {
                lemma_rescaled_is_unit(self@, n as int);
                
            }
            let d: i128 = n as i128;
            Quat {
                x: quotient(product(self.x, ONE), d) as i64,
                y: quotient(product(self.y, ONE), d) as i64,
                z: quotient(product(self.z, ONE), d) as i64,
                w: quotient(product(self.w, ONE), d) as i64,
            }
        } else {
            fallback
        }
    }

    /// The orientation after the small rotation `omega`, back at unit length.
    pub fn turned(&self, omega: Vec3) -> (q: Quat)
        requires
            self@.is_unit(),
            omega@.within(WIDE / 4),
        ensures
            q@ == self@.turned(omega@),
            q@.is_unit(),
    {
        proof {
            lemma_unit_components(self@);
        }
        let dx: i64 = spin_component(self.w, omega.x, self.z, omega.y, self.y, omega.z);
        let dy: i64 = spin_component(self.w, omega.y, self.x, omega.z, self.z, omega.x);
        let dz: i64 = spin_component(self.w, omega.z, self.y, omega.x, self.x, omega.y);
        let nx: i64 = -omega.x;
        let dw: i64 = spin_component(self.x, nx, -self.y, omega.y, self.z, omega.z);
        assert(self.w * omega.x + self.z * omega.y - self.y * omega.z == self.w * omega.x
            + omega.y * self.z - omega.z * self.y) by (nonlinear_arith);
        assert(self.w * omega.y + self.x * omega.z - self.z * omega.x == self.w * omega.y
            + omega.z * self.x - omega.x * self.z) by (nonlinear_arith);
        assert(self.w * omega.z + self.y * omega.x - self.x * omega.y == self.w * omega.z
            + omega.x * self.y - omega.y * self.x) by (nonlinear_arith);
        assert(self.x * nx + (-self.y) * omega.y - self.z * omega.z == -(omega.x * self.x
            + omega.y * self.y + omega.z * self.z)) by (nonlinear_arith)
            requires
                nx == -omega.x,
        ;
        let moved = Quat { x: self.x + dx, y: self.y + dy, z: self.z + dz, w: self.w + dw };
        moved.normalized_or(*self)
    }
}

} // verus!
