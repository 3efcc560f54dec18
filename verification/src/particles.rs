//! One substep of a particle system.
//!
//! A substep integrates the forces into the velocities, predicts the next
//! positions, hands them to the resolvers of shape matching and of
//! collisions, takes the velocities from where the particles really went,
//! has them damped, and commits the positions. The resolvers and the
//! damping are the caller's; the library does the steps between them.

use crate::fixed::{
    confine, confined, lemma_trunc_div, magnitude, quotient, trunc_div, LIMIT, ONE, ONE_SQ,
};
use crate::vec3::{Vec3, V3};
use vstd::prelude::*;

verus! {

/// The parameters of a substep.
#[derive(Clone, Copy, Debug, PartialEq, Eq, Structural)]
pub struct SimulationParams {
    /// Length of the substep.
    pub dt: i64,
    /// Acceleration of every particle.
    pub acceleration: Vec3,
    /// Mass of one particle.
    pub particle_mass: i64,
    /// Compliance of shape matching, the inverse of its stiffness.
    pub shape_compliance: i64,
    /// Damping toward the motion of the matched shape, as a fraction of the
    /// speed per unit of time.
    pub shape_damping: i64,
    /// Largest correction along a surface for each unit of correction out of it.
    pub stiction_factor: i64,
}

impl SimulationParams {
    /// The substep and the mass are positive and the acceleration is stored.
    pub open spec fn wf(&self) -> bool {
        0 < self.dt <= LIMIT && 0 < self.particle_mass <= LIMIT && self.acceleration.stored()
    }

    /// Tells whether the parameters are well formed.
    pub fn is_wf(&self) -> (b: bool)
        ensures
            b == self.wf(),
    {
        0 < self.dt && self.dt <= LIMIT && 0 < self.particle_mass && self.particle_mass <= LIMIT
            && self.acceleration.is_stored()
    }

    /// The reciprocal of the particle mass, which shape matching asks for.
    pub fn inverse_mass(&self) -> (w: i64)
        requires
            self.wf(),
        ensures
            w == trunc_div(ONE_SQ as int, self.particle_mass as int),
            0 <= w <= ONE_SQ,
    {
        proof {
            lemma_trunc_div(ONE_SQ as int, self.particle_mass as int);
            crate::fixed::lemma_trunc_div_at_most(
                ONE_SQ as int,
                self.particle_mass as int,
                ONE_SQ as int,
            );
        }
        quotient(ONE_SQ, self.particle_mass as i128) as i64
    }
}

/// The velocity `v` after the acceleration `acc` has acted for `dt`.
pub open spec fn accelerated(v: V3, acc: V3, dt: int) -> V3 {
    v.plus(acc.scaled(dt)).confined()
}

/// The position `p` after the velocity `v` has acted for `dt`.
pub open spec fn advanced(p: V3, v: V3, dt: int) -> V3 {
    p.plus(v.scaled(dt)).confined()
}

/// The velocity that took a particle from `from` to `to` within `dt`.
pub open spec fn realized_velocity(from: V3, to: V3, dt: int) -> V3 {
    V3 {
        x: confine(trunc_div((to.x - from.x) * ONE, dt)),
        y: confine(trunc_div((to.y - from.y) * ONE, dt)),
        z: confine(trunc_div((to.z - from.z) * ONE, dt)),
    }
}

/// The integers that a list of vectors stands for.
pub open spec fn models(v: Seq<Vec3>) -> Seq<V3> {
    Seq::new(v.len(), |i: int| v[i]@)
}

/// Every vector of the list is stored.
pub open spec fn all_stored(v: Seq<Vec3>) -> bool {
    forall|i: int| 0 <= i < v.len() ==> (#[trigger] v[i]).stored()
}

/// The positions and velocities of a particle system over the integers:
/// what a `ParticleSystemState` stands for.
pub struct ParticlesModel {
    pub positions: Seq<V3>,
    pub velocities: Seq<V3>,
}

/// The particles of a system: for each one its position and its velocity,
/// and with them the constraints of shape matching, which belong to the
/// resolver and are only kept here. The two lists of a well-formed system
/// are of one length.
pub struct ParticleSystemState<C> {
    pub positions: Vec<Vec3>,
    pub velocities: Vec<Vec3>,
    pub shape_constraints: C,
}

impl<C> View for ParticleSystemState<C> {
    type V = ParticlesModel;

    open spec fn view(&self) -> ParticlesModel {
        ParticlesModel {
            positions: models(self.positions@),
            velocities: models(self.velocities@),
        }
    }
}

/// Tells whether every vector of the list is stored.
pub fn are_stored(v: &Vec<Vec3>) -> (b: bool)
    ensures
        b == all_stored(v@),
{
    let mut i: usize = 0;
    while i < v.len()
        invariant
            i <= v.len(),
            forall|j: int| 0 <= j < i ==> (#[trigger] v[j]).stored(),
        decreases v.len() - i,
    {
        if !v[i].is_stored() {
            return false;
        }
        i = i + 1;
    }
    true
}

impl<C> ParticleSystemState<C> {
    /// There are as many velocities as positions, and all are stored.
    pub open spec fn wf(&self) -> bool {
        self.positions.len() == self.velocities.len() && all_stored(self.positions@)
            && all_stored(self.velocities@)
    }

    /// Tells whether the system is well formed.
    pub fn is_wf(&self) -> (b: bool)
        ensures
            b == self.wf(),
    {
        self.positions.len() == self.velocities.len() && are_stored(&self.positions)
            && are_stored(&self.velocities)
    }

    /// The system with the given positions, velocities and constraints, if
    /// there are as many velocities as positions and all of them are stored.
    pub fn new(positions: Vec<Vec3>, velocities: Vec<Vec3>, shape_constraints: C) -> (s: Option<
        ParticleSystemState<C>,
    >)
        ensures
            s is Some <==> positions.len() == velocities.len() && all_stored(positions@)
                && all_stored(velocities@),
            s is Some ==> s->0.wf() && s->0@.positions == models(positions@) && s->0@.velocities
                == models(velocities@) && s->0.shape_constraints == shape_constraints,
    {
        if positions.len() != velocities.len() || !are_stored(&positions) || !are_stored(
            &velocities,
        ) {
            None
        } else {
            Some(ParticleSystemState { positions, velocities, shape_constraints })
        }
    }

    /// How many particles there are.
    pub fn len(&self) -> (n: usize)
        ensures
            n == self@.positions.len(),
            self.wf() ==> n == self@.velocities.len(),
    {
        self.positions.len()
    }

    /// The positions, particle by particle.
    pub fn positions(&self) -> (p: &Vec<Vec3>)
        ensures
            models(p@) == self@.positions,
            self.wf() ==> all_stored(p@),
    {
        &self.positions
    }

    /// The velocities, particle by particle.
    pub fn velocities(&self) -> (v: &Vec<Vec3>)
        ensures
            models(v@) == self@.velocities,
            self.wf() ==> all_stored(v@),
    {
        &self.velocities
    }

    /// Applies the external forces: every velocity gains the acceleration
    /// times the substep.
    pub fn integrate(&mut self, params: &SimulationParams)
        requires
            old(self).wf(),
            params.wf(),
        ensures
            final(self).wf(),
            final(self).shape_constraints == old(self).shape_constraints,
            final(self)@.positions == old(self)@.positions,
            final(self)@.velocities.len() == old(self)@.velocities.len(),
            forall|i: int|
                0 <= i < old(self)@.velocities.len() ==> (#[trigger] final(self)@.velocities[i])
                    == accelerated(
                    old(self)@.velocities[i],
                    params.acceleration@,
                    params.dt as int,
                ),
    {
        proof {
            crate::vec3::lemma_scaled_bound(
                params.acceleration@,
                params.dt as int,
                1_000_000_000_000,
                1_000_000_000_000,
                1_000_000_000_000_000,
            );
        }
        let gain: Vec3 = params.acceleration.scaled(params.dt);
        let n: usize = self.velocities.len();
        let mut i: usize = 0;
        while i < n
            invariant
                i <= n,
                n == self.velocities.len(),
                n == old(self).velocities.len(),
                self.positions == old(self).positions,
                self.shape_constraints == old(self).shape_constraints,
                old(self).wf(),
                gain@ == params.acceleration@.scaled(params.dt as int),
                forall|j: int| 0 <= j < i ==> (#[trigger] self.velocities[j]).stored(),
                forall|j: int|
                    0 <= j < i ==> (#[trigger] self.velocities[j])@ == accelerated(
                        old(self).velocities[j]@,
                        params.acceleration@,
                        params.dt as int,
                    ),
                forall|j: int| i <= j < n ==> (#[trigger] self.velocities[j]) == old(
                    self,
                ).velocities[j],
            decreases n - i,
        {
            let v: Vec3 = self.velocities[i];
            self.velocities.set(i, v.plus_confined(gain));
            i = i + 1;
        }
    }

    /// Predicts where every particle is after the substep if nothing stands
    /// in its way: its position plus its velocity times the substep.
    pub fn predict(&self, params: &SimulationParams) -> (next: Vec<Vec3>)
        requires
            self.wf(),
            params.wf(),
        ensures
            next.len() == self@.positions.len(),
            all_stored(next@),
            forall|i: int|
                0 <= i < next.len() ==> (#[trigger] next[i])@ == advanced(
                    self@.positions[i],
                    self@.velocities[i],
                    params.dt as int,
                ),
    {
        let n: usize = self.positions.len();
        let mut next: Vec<Vec3> = Vec::new();
        let mut i: usize = 0;
        while i < n
            invariant
                i <= n,
                n == self.positions.len(),
                self.wf(),
                params.wf(),
                next.len() == i,
                forall|j: int| 0 <= j < i ==> (#[trigger] next[j]).stored(),
                forall|j: int|
                    0 <= j < i ==> (#[trigger] next[j])@ == advanced(
                        self.positions[j]@,
                        self.velocities[j]@,
                        params.dt as int,
                    ),
            decreases n - i,
        {
            let v: Vec3 = self.velocities[i];
            proof {
                assert(self.velocities@[i as int].stored());
                crate::vec3::lemma_scaled_bound(
                    v@,
                    params.dt as int,
                    1_000_000_000_000,
                    1_000_000_000_000,
                    1_000_000_000_000_000,
                );
            }
            next.push(self.positions[i].plus_confined(v.scaled(params.dt)));
            i = i + 1;
        }
        next
    }

    /// Takes the velocities from where the particles really went: for each
    /// particle the way from its position to `next`, divided by the substep.
    /// What the velocities were before does not enter.
    pub fn reconcile(&mut self, next: &Vec<Vec3>, params: &SimulationParams)
        requires
            old(self).wf(),
            params.wf(),
            next.len() == old(self)@.positions.len(),
            all_stored(next@),
        ensures
            final(self).wf(),
            final(self).shape_constraints == old(self).shape_constraints,
            final(self)@.positions == old(self)@.positions,
            final(self)@.velocities.len() == old(self)@.positions.len(),
            forall|i: int|
                0 <= i < next.len() ==> (#[trigger] final(self)@.velocities[i])
                    == realized_velocity(old(self)@.positions[i], next[i]@, params.dt as int),
    {
        let n: usize = self.positions.len();
        let mut i: usize = 0;
        while i < n
            invariant
                i <= n,
                n == self.velocities.len(),
                n == self.positions.len(),
                n == next.len(),
                self.positions == old(self).positions,
                self.shape_constraints == old(self).shape_constraints,
                old(self).wf(),
                params.wf(),
                all_stored(next@),
                forall|j: int| 0 <= j < n ==> (#[trigger] self.velocities[j]).stored(),
                forall|j: int|
                    0 <= j < i ==> (#[trigger] self.velocities[j])@ == realized_velocity(
                        self.positions[j]@,
                        next[j]@,
                        params.dt as int,
                    ),
            decreases n - i,
        {
            let from: Vec3 = self.positions[i];
            let to: Vec3 = next[i];
            proof {
                assert(self.positions@[i as int].stored());
                assert(next@[i as int].stored());
            }
            let d: i128 = params.dt as i128;
            let one: i128 = ONE as i128;
            let v = Vec3 {
                x: confined(quotient((to.x as i128 - from.x as i128) * one, d)),
                y: confined(quotient((to.y as i128 - from.y as i128) * one, d)),
                z: confined(quotient((to.z as i128 - from.z as i128) * one, d)),
            };
            self.velocities.set(i, v);
            i = i + 1;
        }
    }

    /// Replaces the velocities, as damping does, if there are as many new
    /// ones as particles and all of them are stored; otherwise the system
    /// stays as it is.
    pub fn set_velocities(&mut self, velocities: Vec<Vec3>) -> (done: bool)
        requires
            old(self).wf(),
        ensures
            final(self).wf(),
            final(self).shape_constraints == old(self).shape_constraints,
            final(self)@.positions == old(self)@.positions,
            done <==> velocities.len() == old(self)@.positions.len() && all_stored(velocities@),
            done ==> final(self)@.velocities == models(velocities@),
            !done ==> final(self)@.velocities == old(self)@.velocities,
    {
        if velocities.len() == self.positions.len() && are_stored(&velocities) {
            self.velocities = velocities;
            true
        } else {
            false
        }
    }

    /// Commits the positions of the substep, if there are as many as
    /// particles and all of them are stored; otherwise the system stays as
    /// it is.
    pub fn commit(&mut self, next: Vec<Vec3>) -> (done: bool)
        requires
            old(self).wf(),
        ensures
            final(self).wf(),
            final(self).shape_constraints == old(self).shape_constraints,
            final(self)@.velocities == old(self)@.velocities,
            done <==> next.len() == old(self)@.positions.len() && all_stored(next@),
            done ==> final(self)@.positions == models(next@),
            !done ==> final(self)@.positions == old(self)@.positions,
    {
        if next.len() == self.positions.len() && are_stored(&next) {
            self.positions = next;
            true
        } else {
            false
        }
    }
}

/// The velocity times the substep is a whole number of raw units, so that
/// the step loses nothing to rounding.
pub open spec fn exact_step(v: V3, dt: int) -> bool {
    v.scaled(dt).x * ONE == v.x * dt && v.scaled(dt).y * ONE == v.y * dt && v.scaled(dt).z * ONE
        == v.z * dt
}

/// A multiple of a positive number, divided by it, is the factor.
proof fn lemma_trunc_div_of_multiple(k: int, d: int)
    requires
        d > 0,
    ensures
        trunc_div(k * d, d) == k,
{
    if k >= 0 {
        assert(k * d >= 0) by (nonlinear_arith)
            requires
                k >= 0,
                d > 0,
        ;
        vstd::arithmetic::div_mod::lemma_div_by_multiple(k, d);
    } else {
        assert(k * d < 0 && -(k * d) == (-k) * d) by (nonlinear_arith)
            requires
                k < 0,
                d > 0,
        ;
        vstd::arithmetic::div_mod::lemma_div_by_multiple(-k, d);
    }
}

/// Free flight: a particle that nothing accelerates and nothing stops keeps
/// its velocity and advances by its velocity times the substep, provided the
/// step is exact and stays inside the box of stored coordinates.
pub proof fn lemma_free_flight(p: V3, v: V3, dt: int)
    requires
        dt > 0,
        p.within(LIMIT as int),
        v.within(LIMIT as int),
        exact_step(v, dt),
        p.plus(v.scaled(dt)).within(LIMIT as int),
    ensures
        accelerated(v, V3::zero(), dt) == v,
        advanced(p, v, dt) == p.plus(v.scaled(dt)),
        realized_velocity(p, advanced(p, v, dt), dt) == v,
{
    let s = v.scaled(dt);
    assert(s.x * ONE == v.x * dt && s.y * ONE == v.y * dt && s.z * ONE == v.z * dt);
    lemma_trunc_div_of_multiple(v.x, dt);
    lemma_trunc_div_of_multiple(v.y, dt);
    lemma_trunc_div_of_multiple(v.z, dt);
    let to = advanced(p, v, dt);
    assert(to == p.plus(s));
    assert((to.x - p.x) * ONE == v.x * dt);
    assert((to.y - p.y) * ONE == v.y * dt);
    assert((to.z - p.z) * ONE == v.z * dt);
}

/// One component of a free flight: the velocity that is read back from the
/// step is no larger than the velocity that made it and differs from it by
/// less than one raw unit of the step, `ONE / dt`, and one.
proof fn lemma_read_back(v: int, dt: int)
    requires
        dt > 0,
    ensures
        magnitude(trunc_div(trunc_div(v * dt, ONE as int) * ONE, dt)) <= magnitude(v),
        magnitude(v - trunc_div(trunc_div(v * dt, ONE as int) * ONE, dt)) * dt < ONE + dt,
{
    let s = trunc_div(v * dt, ONE as int);
    let r = trunc_div(s * ONE, dt);
    lemma_trunc_div(v * dt, ONE as int);
    lemma_trunc_div(s * ONE, dt);
    assert(magnitude(v * dt) == magnitude(v) * dt && (v >= 0 ==> v * dt >= 0) && (v <= 0 ==> v
        * dt <= 0)) by (nonlinear_arith)
        requires
            dt > 0,
    ;
    assert(magnitude(s * ONE) == magnitude(s) * ONE);
    assert(magnitude(r) <= magnitude(v)) by (nonlinear_arith)
        requires
            dt > 0,
            magnitude(r) * dt <= magnitude(s) * ONE,
            magnitude(s) * ONE <= magnitude(v) * dt,
    ;
    assert(magnitude(v - r) * dt < ONE + dt) by (nonlinear_arith)
        requires
            dt > 0,
            magnitude(r) * dt <= magnitude(s) * ONE,
            magnitude(s) * ONE < (magnitude(r) + 1) * dt,
            magnitude(s) * ONE <= magnitude(v) * dt,
            magnitude(v) * dt < (magnitude(s) + 1) * ONE,
            v >= 0 ==> r >= 0,
            v <= 0 ==> r <= 0,
            magnitude(r) <= magnitude(v),
    ;
}

/// Free flight within rounding: a particle that nothing accelerates and
/// nothing stops, and that stays inside the box of stored coordinates,
/// advances by its velocity times the substep, and the velocity that is
/// taken from its step differs from the one it had by less than `ONE / dt`
/// and one raw unit along every axis.
pub proof fn lemma_free_flight_within_rounding(p: V3, v: V3, dt: int)
    requires
        dt > 0,
        p.within(LIMIT as int),
        v.within(LIMIT as int),
        p.plus(v.scaled(dt)).within(LIMIT as int),
    ensures
        accelerated(v, V3::zero(), dt) == v,
        advanced(p, v, dt) == p.plus(v.scaled(dt)),
        ({
            let w = realized_velocity(p, advanced(p, v, dt), dt);
            &&& magnitude(v.x - w.x) * dt < ONE + dt
            &&& magnitude(v.y - w.y) * dt < ONE + dt
            &&& magnitude(v.z - w.z) * dt < ONE + dt
        }),
{
    lemma_read_back(v.x, dt);
    lemma_read_back(v.y, dt);
    lemma_read_back(v.z, dt);
}

} // verus!
