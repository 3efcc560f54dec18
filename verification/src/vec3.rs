//! Three-component vectors of fixed-point scalars.

use crate::fixed::{
    confine, confined, floor_sqrt, is_floor_sqrt, isqrt, lemma_product_bound,
    lemma_trunc_div_at_most, magnitude, product, quotient, trunc_div, LIMIT, ONE, WIDE,
};
use vstd::prelude::*;

verus! {

/// A vector of three integers: what a `Vec3` stands for.
pub struct V3 {
    pub x: int,
    pub y: int,
    pub z: int,
}

impl V3 {
    /// The zero vector.
    pub open spec fn zero() -> V3 {
        V3 { x: 0, y: 0, z: 0 }
    }

    /// Every component has magnitude at most `b`.
    pub open spec fn within(self, b: int) -> bool {
        -b <= self.x <= b && -b <= self.y <= b && -b <= self.z <= b
    }

    /// Componentwise sum.
    pub open spec fn plus(self, o: V3) -> V3 {
        V3 { x: self.x + o.x, y: self.y + o.y, z: self.z + o.z }
    }

    /// Componentwise difference.
    pub open spec fn minus(self, o: V3) -> V3 {
        V3 { x: self.x - o.x, y: self.y - o.y, z: self.z - o.z }
    }

    /// The opposite vector.
    pub open spec fn negated(self) -> V3 {
        V3 { x: -self.x, y: -self.y, z: -self.z }
    }

    /// The nearest vector inside the box of stored coordinates.
    pub open spec fn confined(self) -> V3 {
        V3 { x: confine(self.x), y: confine(self.y), z: confine(self.z) }
    }

    /// Dot product, in squared raw units.
    pub open spec fn dot(self, o: V3) -> int {
        self.x * o.x + self.y * o.y + self.z * o.z
    }

    /// Squared length, in squared raw units.
    pub open spec fn norm_sq(self) -> int {
        self.dot(self)
    }

    /// Length in raw units, rounded down.
    pub open spec fn length(self) -> int {
        floor_sqrt(self.norm_sq())
    }

    /// Cross product of two fixed-point vectors, each component rounded toward zero.
    pub open spec fn cross(self, o: V3) -> V3 {
        V3 {
            x: trunc_div(self.y * o.z - self.z * o.y, ONE as int),
            y: trunc_div(self.z * o.x - self.x * o.z, ONE as int),
            z: trunc_div(self.x * o.y - self.y * o.x, ONE as int),
        }
    }

    /// The vector times a fixed-point scalar, each component rounded toward zero.
    pub open spec fn scaled(self, s: int) -> V3 {
        V3 {
            x: trunc_div(self.x * s, ONE as int),
            y: trunc_div(self.y * s, ONE as int),
            z: trunc_div(self.z * s, ONE as int),
        }
    }
}

/// A vector of three fixed-point scalars.
#[derive(Clone, Copy, Debug, PartialEq, Eq, Structural)]
pub struct Vec3 {
    pub x: i64,
    pub y: i64,
    pub z: i64,
}

impl View for Vec3 {
    type V = V3;

    open spec fn view(&self) -> V3 {
        V3 { x: self.x as int, y: self.y as int, z: self.z as int }
    }
}

/// The squared length of a bounded vector is bounded by three squared bounds.
pub proof fn lemma_norm_sq_bound(v: V3, b: int)
    requires
        v.within(b),
    ensures
        0 <= v.norm_sq() <= 3 * (b * b),
{
    lemma_product_bound(v.x, v.x, b, b);
    lemma_product_bound(v.y, v.y, b, b);
    lemma_product_bound(v.z, v.z, b, b);
    assert(v.x * v.x >= 0 && v.y * v.y >= 0 && v.z * v.z >= 0) by (nonlinear_arith);
}

/// A dot product is bounded by three times the product of the bounds.
pub proof fn lemma_dot_bound(u: V3, v: V3, bu: int, bv: int)
    requires
        u.within(bu),
        v.within(bv),
    ensures
        magnitude(u.dot(v)) <= 3 * (bu * bv),
{
    lemma_product_bound(u.x, v.x, bu, bv);
    lemma_product_bound(u.y, v.y, bu, bv);
    lemma_product_bound(u.z, v.z, bu, bv);
}

/// The cross product of the zero vector with any vector is zero.
pub proof fn lemma_cross_of_zero(v: V3)
    ensures
        V3::zero().cross(v) == V3::zero(),
        v.cross(V3::zero()) == V3::zero(),
{
    let zero = V3::zero();
    assert(zero.y * v.z - zero.z * v.y == 0 && zero.z * v.x - zero.x * v.z == 0 && zero.x * v.y
        - zero.y * v.x == 0);
    assert(v.y * zero.z - v.z * zero.y == 0 && v.z * zero.x - v.x * zero.z == 0 && v.x * zero.y
        - v.y * zero.x == 0);
}

/// A cross product of bounded vectors is bounded.
pub proof fn lemma_cross_bound(u: V3, v: V3, bu: int, bv: int, m: int)
    requires
        u.within(bu),
        v.within(bv),
        0 <= m,
        2 * (bu * bv) <= m * ONE,
    ensures
        u.cross(v).within(m),
{
    lemma_product_bound(u.y, v.z, bu, bv);
    lemma_product_bound(u.z, v.y, bu, bv);
    lemma_product_bound(u.z, v.x, bu, bv);
    lemma_product_bound(u.x, v.z, bu, bv);
    lemma_product_bound(u.x, v.y, bu, bv);
    lemma_product_bound(u.y, v.x, bu, bv);
    lemma_trunc_div_at_most(u.y * v.z - u.z * v.y, ONE as int, m);
    lemma_trunc_div_at_most(u.z * v.x - u.x * v.z, ONE as int, m);
    lemma_trunc_div_at_most(u.x * v.y - u.y * v.x, ONE as int, m);
}

/// A vector times a bounded scalar is bounded.
pub proof fn lemma_scaled_bound(v: V3, s: int, bv: int, bs: int, m: int)
    requires
        v.within(bv),
        -bs <= s <= bs,
        0 <= m,
        bv * bs <= m * ONE,
    ensures
        v.scaled(s).within(m),
{
    lemma_product_bound(v.x, s, bv, bs);
    lemma_product_bound(v.y, s, bv, bs);
    lemma_product_bound(v.z, s, bv, bs);
    lemma_trunc_div_at_most(v.x * s, ONE as int, m);
    lemma_trunc_div_at_most(v.y * s, ONE as int, m);
    lemma_trunc_div_at_most(v.z * s, ONE as int, m);
}

impl Vec3 {
    /// The vector with the given raw components.
    pub fn new(x: i64, y: i64, z: i64) -> (v: Vec3)
        ensures
            v@ == (V3 { x: x as int, y: y as int, z: z as int }),
    {
        Vec3 { x, y, z }
    }

    /// The zero vector.
    pub fn zero() -> (v: Vec3)
        ensures
            v@ == V3::zero(),
    {
        Vec3 { x: 0, y: 0, z: 0 }
    }

    /// The vector lies in the box of stored coordinates.
    pub open spec fn stored(self) -> bool {
        self@.within(LIMIT as int)
    }

    /// Tells whether the vector lies in the box of stored coordinates.
    pub fn is_stored(&self) -> (b: bool)
        ensures
            b == self.stored(),
    {
        -LIMIT <= self.x && self.x <= LIMIT && -LIMIT <= self.y && self.y <= LIMIT && -LIMIT
            <= self.z && self.z <= LIMIT
    }

    /// Componentwise sum of two vectors whose sum can be held.
    pub fn plus(self, o: Vec3) -> (r: Vec3)
        requires
            self@.plus(o@).within(i64::MAX as int),
        ensures
            r@ == self@.plus(o@),
    {
        Vec3 { x: self.x + o.x, y: self.y + o.y, z: self.z + o.z }
    }

    /// Componentwise difference of two vectors whose difference can be held.
    pub fn minus(self, o: Vec3) -> (r: Vec3)
        requires
            self@.minus(o@).within(i64::MAX as int),
        ensures
            r@ == self@.minus(o@),
    {
        Vec3 { x: self.x - o.x, y: self.y - o.y, z: self.z - o.z }
    }

    /// The opposite vector.
    pub fn negated(self) -> (r: Vec3)
        requires
            self@.within(i64::MAX as int),
        ensures
            r@ == self@.negated(),
    {
        Vec3 { x: -self.x, y: -self.y, z: -self.z }
    }

    /// The nearest vector inside the box of stored coordinates.
    pub fn confined(self) -> (r: Vec3)
        ensures
            r@ == self@.confined(),
            r.stored(),
    {
        Vec3 {
            x: confined(self.x as i128),
            y: confined(self.y as i128),
            z: confined(self.z as i128),
        }
    }

    /// The sum of two vectors, brought back into the box of stored coordinates.
    pub fn plus_confined(self, o: Vec3) -> (r: Vec3)
        ensures
            r@ == self@.plus(o@).confined(),
            r.stored(),
    {
        Vec3 {
            x: confined(self.x as i128 + o.x as i128),
            y: confined(self.y as i128 + o.y as i128),
            z: confined(self.z as i128 + o.z as i128),
        }
    }

    /// The difference of two vectors, brought back into the box of stored coordinates.
    pub fn minus_confined(self, o: Vec3) -> (r: Vec3)
        ensures
            r@ == self@.minus(o@).confined(),
            r.stored(),
    {
        Vec3 {
            x: confined(self.x as i128 - o.x as i128),
            y: confined(self.y as i128 - o.y as i128),
            z: confined(self.z as i128 - o.z as i128),
        }
    }

    /// Dot product, in squared raw units.
    pub fn dot(self, o: Vec3) -> (d: i128)
        requires
            self@.within(WIDE as int),
            o@.within(WIDE as int),
        ensures
            d == self@.dot(o@),
    {
        proof {
            lemma_product_bound(self.x as int, o.x as int, WIDE as int, WIDE as int);
            lemma_product_bound(self.y as int, o.y as int, WIDE as int, WIDE as int);
            lemma_product_bound(self.z as int, o.z as int, WIDE as int, WIDE as int);
        }
        product(self.x, o.x) + product(self.y, o.y) + product(self.z, o.z)
    }

    /// Squared length, in squared raw units.
    pub fn norm_squared(self) -> (n: u128)
        requires
            self@.within(WIDE as int),
        ensures
            n == self@.norm_sq(),
    {
        proof {
            lemma_norm_sq_bound(self@, WIDE as int);
        }
        self.dot(self) as u128
    }

    /// Length in raw units, rounded down.
    pub fn length(self) -> (l: i64)
        requires
            self@.within(WIDE as int),
        ensures
            l == self@.length(),
            is_floor_sqrt(l as int, self@.norm_sq()),
    {
        proof {
            lemma_norm_sq_bound(self@, WIDE as int);
        }
        let r: u64 = isqrt(self.norm_squared());
        proof {
            crate::fixed::lemma_floor_sqrt_at_most(
                r as int,
                self@.norm_sq(),
                0x7fff_ffff_ffff_ffff,
            );
        }
        r as i64
    }

    /// Cross product of two fixed-point vectors whose product can be held.
    pub fn cross(self, o: Vec3) -> (r: Vec3)
        requires
            self@.within(WIDE as int),
            o@.within(WIDE as int),
            self@.cross(o@).within(i64::MAX as int),
        ensures
            r@ == self@.cross(o@),
    {
        proof {
            lemma_product_bound(self.y as int, o.z as int, WIDE as int, WIDE as int);
            lemma_product_bound(self.z as int, o.y as int, WIDE as int, WIDE as int);
            lemma_product_bound(self.z as int, o.x as int, WIDE as int, WIDE as int);
            lemma_product_bound(self.x as int, o.z as int, WIDE as int, WIDE as int);
            lemma_product_bound(self.x as int, o.y as int, WIDE as int, WIDE as int);
            lemma_product_bound(self.y as int, o.x as int, WIDE as int, WIDE as int);
        }
        let one: i128 = ONE as i128;
        let x: i128 = quotient(product(self.y, o.z) - product(self.z, o.y), one);
        let y: i128 = quotient(product(self.z, o.x) - product(self.x, o.z), one);
        let z: i128 = quotient(product(self.x, o.y) - product(self.y, o.x), one);
        Vec3 { x: x as i64, y: y as i64, z: z as i64 }
    }

    /// The vector times a fixed-point scalar, where the result can be held.
    pub fn scaled(self, s: i64) -> (r: Vec3)
        requires
            self@.scaled(s as int).within(i64::MAX as int),
        ensures
            r@ == self@.scaled(s as int),
    {
        let one: i128 = ONE as i128;
        let x: i128 = quotient(product(self.x, s), one);
        let y: i128 = quotient(product(self.y, s), one);
        let z: i128 = quotient(product(self.z, s), one);
        Vec3 { x: x as i64, y: y as i64, z: z as i64 }
    }
}

} // verus!
