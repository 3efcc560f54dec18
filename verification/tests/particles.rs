use hotham_xpbd::fixed::{LIMIT, ONE};
use hotham_xpbd::particles::{are_stored, ParticleSystemState, SimulationParams};
use hotham_xpbd::vec3::Vec3;

fn params(dt: i64, acceleration: Vec3) -> SimulationParams {
    SimulationParams {
        dt,
        acceleration,
        particle_mass: ONE / 50,
        shape_compliance: 0,
        shape_damping: ONE / 10,
        stiction_factor: ONE / 4,
    }
}

fn sample() -> ParticleSystemState<u8> {
    ParticleSystemState::new(
        vec![Vec3::new(0, ONE, 0), Vec3::new(ONE, 2 * ONE, -ONE), Vec3::new(-5, 6, 7)],
        vec![Vec3::new(ONE, 0, 0), Vec3::new(0, -2 * ONE, 500_000_000), Vec3::new(300, -200, 100)],
        7,
    )
    .unwrap()
}

#[test]
fn a_system_needs_as_many_velocities_as_positions() {
    assert!(ParticleSystemState::new(vec![Vec3::zero()], vec![], ()).is_none());
    assert!(ParticleSystemState::new(vec![], vec![Vec3::zero()], ()).is_none());
    assert!(ParticleSystemState::new(vec![], vec![], ()).is_some());
    assert_eq!(ParticleSystemState::new(vec![], vec![], ()).unwrap().len(), 0);
    assert_eq!(sample().len(), 3);
}

#[test]
fn a_system_holds_only_stored_vectors() {
    let out = Vec3::new(LIMIT + 1, 0, 0);
    assert!(ParticleSystemState::new(vec![out], vec![Vec3::zero()], ()).is_none());
    assert!(ParticleSystemState::new(vec![Vec3::zero()], vec![out], ()).is_none());
    assert!(ParticleSystemState::new(vec![Vec3::new(LIMIT, -LIMIT, 0)], vec![Vec3::zero()], ()).is_some());
    assert!(are_stored(&vec![Vec3::zero(), Vec3::new(LIMIT, 0, 0)]));
    assert!(!are_stored(&vec![Vec3::zero(), out]));
    assert!(are_stored(&vec![]));
}

#[test]
fn parameters_need_a_positive_substep_and_mass() {
    let mut p = params(ONE / 100, Vec3::new(0, -9_810_000_000, 0));
    assert!(p.is_wf());
    p.dt = 0;
    assert!(!p.is_wf());
    p.dt = ONE;
    p.particle_mass = 0;
    assert!(!p.is_wf());
    p.particle_mass = 1;
    assert!(p.is_wf());
    p.acceleration = Vec3::new(0, 0, LIMIT + 1);
    assert!(!p.is_wf());
}

#[test]
fn inverse_mass_is_the_reciprocal() {
    let mut p = params(ONE / 100, Vec3::zero());
    assert_eq!(p.inverse_mass(), 50 * ONE);
    p.particle_mass = ONE;
    assert_eq!(p.inverse_mass(), ONE);
    p.particle_mass = 3 * ONE;
    assert_eq!(p.inverse_mass(), 333_333_333);
    p.particle_mass = 1;
    assert_eq!(p.inverse_mass(), ONE * ONE);
    p.particle_mass = LIMIT;
    assert_eq!(p.inverse_mass(), 1_000_000);
}

#[test]
fn integration_adds_the_acceleration_times_the_substep() {
    let mut s = sample();
    let p = params(ONE / 100, Vec3::new(0, -9_810_000_000, 1));
    s.integrate(&p);
    assert_eq!(
        s.velocities(),
        &vec![
            Vec3::new(ONE, -98_100_000, 0),
            Vec3::new(0, -2_098_100_000, 500_000_000),
            Vec3::new(300, -98_100_200, 100),
        ]
    );
    assert_eq!(s.positions(), sample().positions());
}

#[test]
fn prediction_adds_the_velocity_times_the_substep() {
    let s = sample();
    let p = params(ONE / 100, Vec3::zero());
    let next = s.predict(&p);
    assert_eq!(
        next,
        vec![
            Vec3::new(10_000_000, ONE, 0),
            Vec3::new(ONE, 1_980_000_000, -995_000_000),
            Vec3::new(-2, 4, 8),
        ]
    );
}

#[test]
fn free_flight_keeps_the_velocity_and_advances_linearly() {
    let mut s = ParticleSystemState::new(
        vec![Vec3::new(0, ONE, 0), Vec3::new(ONE, 2 * ONE, -ONE)],
        vec![Vec3::new(ONE, 0, -300), Vec3::new(0, -2 * ONE, 500_000_000)],
        (),
    )
    .unwrap();
    let p = params(ONE / 100, Vec3::zero());
    let mut expected = s.positions().clone();
    for _ in 0..50 {
        let before = s.velocities().clone();
        s.integrate(&p);
        assert_eq!(s.velocities(), &before);
        let next = s.predict(&p);
        s.reconcile(&next, &p);
        assert_eq!(s.velocities(), &before);
        assert!(s.commit(next));
        expected[0] = expected[0].plus(Vec3::new(10_000_000, 0, -3));
        expected[1] = expected[1].plus(Vec3::new(0, -20_000_000, 5_000_000));
        assert_eq!(s.positions(), &expected);
    }
}

#[test]
fn a_step_that_rounds_loses_the_rounded_part_of_the_velocity() {
    let mut s = ParticleSystemState::new(vec![Vec3::zero()], vec![Vec3::new(1, 150, -250)], ()).unwrap();
    let p = params(ONE / 100, Vec3::zero());
    let next = s.predict(&p);
    assert_eq!(next, vec![Vec3::new(0, 1, -2)]);
    s.reconcile(&next, &p);
    assert_eq!(s.velocities(), &vec![Vec3::new(0, 100, -200)]);
}

#[test]
fn velocities_are_reconciled_with_the_realized_displacement() {
    let mut s = sample();
    let p = params(ONE / 100, Vec3::new(0, -9_810_000_000, 0));
    s.integrate(&p);
    let integrated = s.velocities().clone();
    let mut next = s.predict(&p);
    let delta = Vec3::new(5_000_000, -2_000_000, 1_000_000);
    for n in next.iter_mut() {
        *n = sample().positions()[0].plus(delta);
    }
    next[1] = sample().positions()[1].plus(delta);
    next[2] = sample().positions()[2].plus(delta);
    s.reconcile(&next, &p);
    let moved = Vec3::new(500_000_000, -200_000_000, 100_000_000);
    assert_eq!(s.velocities(), &vec![moved, moved, moved]);
    assert_ne!(s.velocities(), &integrated);
    assert_eq!(s.positions(), sample().positions());
}

#[test]
fn reconciled_velocities_round_toward_zero() {
    let mut s = ParticleSystemState::new(vec![Vec3::zero()], vec![Vec3::zero()], ()).unwrap();
    let p = params(3, Vec3::zero());
    s.reconcile(&vec![Vec3::new(1, -1, 2)], &p);
    assert_eq!(s.velocities(), &vec![Vec3::new(333_333_333, -333_333_333, 666_666_666)]);
}

#[test]
fn reconciled_velocities_stay_in_the_box() {
    let mut s =
        ParticleSystemState::new(vec![Vec3::new(-LIMIT, LIMIT, 0)], vec![Vec3::zero()], ()).unwrap();
    let p = params(1, Vec3::zero());
    s.reconcile(&vec![Vec3::new(LIMIT, -LIMIT, 0)], &p);
    assert_eq!(s.velocities(), &vec![Vec3::new(LIMIT, -LIMIT, 0)]);
}

#[test]
fn integration_and_prediction_stay_in_the_box() {
    let mut s = ParticleSystemState::new(
        vec![Vec3::new(LIMIT, -LIMIT, 0)],
        vec![Vec3::new(LIMIT, -LIMIT, 0)],
        (),
    )
    .unwrap();
    let p = params(LIMIT, Vec3::new(LIMIT, -LIMIT, LIMIT));
    s.integrate(&p);
    assert_eq!(s.velocities(), &vec![Vec3::new(LIMIT, -LIMIT, LIMIT)]);
    assert_eq!(s.predict(&p), vec![Vec3::new(LIMIT, -LIMIT, LIMIT)]);
}

#[test]
fn commit_takes_the_new_positions() {
    let mut s = sample();
    let next = vec![Vec3::new(1, 1, 1), Vec3::new(2, 2, 2), Vec3::new(3, 3, 3)];
    assert!(s.commit(next.clone()));
    assert_eq!(s.positions(), &next);
    assert_eq!(s.velocities(), sample().velocities());
}

#[test]
fn commit_refuses_what_does_not_fit() {
    let mut s = sample();
    assert!(!s.commit(vec![Vec3::zero()]));
    assert_eq!(s.positions(), sample().positions());
    assert!(!s.commit(vec![Vec3::zero(), Vec3::zero(), Vec3::new(0, 0, LIMIT + 1)]));
    assert_eq!(s.positions(), sample().positions());
}

#[test]
fn damped_velocities_replace_the_old_ones() {
    let mut s = sample();
    let v = vec![Vec3::new(9, 9, 9), Vec3::new(8, 8, 8), Vec3::new(7, 7, 7)];
    assert!(s.set_velocities(v.clone()));
    assert_eq!(s.velocities(), &v);
    assert!(!s.set_velocities(vec![Vec3::zero()]));
    assert_eq!(s.velocities(), &v);
    assert!(!s.set_velocities(vec![Vec3::zero(), Vec3::zero(), Vec3::new(-LIMIT - 1, 0, 0)]));
    assert_eq!(s.velocities(), &v);
    assert_eq!(s.positions(), sample().positions());
}

#[test]
fn the_constraints_of_shape_matching_are_kept_through_a_substep() {
    let mut s = sample();
    let p = params(ONE / 100, Vec3::new(0, -9_810_000_000, 0));
    assert_eq!(s.shape_constraints, 7);
    s.integrate(&p);
    let next = s.predict(&p);
    s.reconcile(&next, &p);
    let v = s.velocities().clone();
    assert!(s.set_velocities(v));
    assert!(s.commit(next));
    assert_eq!(s.shape_constraints, 7);
    s.shape_constraints = 9;
    assert_eq!(s.shape_constraints, 9);
}

#[test]
fn a_system_is_well_formed_only_with_matching_stored_lists() {
    let mut s = sample();
    assert!(s.is_wf());
    s.velocities.pop();
    assert!(!s.is_wf());
    let mut s = sample();
    s.positions[1] = Vec3::new(0, LIMIT + 1, 0);
    assert!(!s.is_wf());
    let mut s = sample();
    s.velocities[2] = Vec3::new(0, 0, -LIMIT - 1);
    assert!(!s.is_wf());
}
