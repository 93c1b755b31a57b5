use springy::fixed::Real;
use springy::kinematic::{Kinematic, Vec2, Vec3};
use springy::{
    symplectic_euler, AngularParticle2, AngularParticle3, Mass, Particle, Particle1, Spring,
    SpringBreak, SpringInstant, SpringResult, SpringState, TranslationParticle2,
    TranslationParticle3,
};

fn r(micros: i64) -> Real {
    Real::from_micros(micros)
}

fn n(units: i32) -> Real {
    Real::from_int(units)
}

fn spring(strength: Real, damp_ratio: Real) -> Spring {
    Spring { strength, damp_ratio }
}

#[test]
fn accessors_clamp_on_read() {
    let s = spring(n(3), n(50));
    assert_eq!(s.strength(), n(1));
    assert_eq!(s.damp_ratio(), n(20));
    let s = spring(n(-1), n(-1));
    assert_eq!(s.strength(), n(0));
    assert_eq!(s.damp_ratio(), n(0));
    assert_eq!(s.damping(), n(0));
}

#[test]
fn damping_is_two_ratio_root_strength() {
    assert_eq!(spring(r(40_000), r(500_000)).damping(), r(200_000));
    assert_eq!(spring(r(250_000), r(600_000)).damping(), r(600_000));
    assert_eq!(spring(r(250_000), n(1)).damping(), n(1));
    assert_eq!(spring(n(1), n(3)).damping(), n(1));
}

#[test]
fn default_spring_is_zero() {
    let s = Spring::default();
    assert_eq!(s.strength, n(0));
    assert_eq!(s.damp_ratio, n(0));
}

#[test]
fn impulse_of_a_stretched_scalar_spring() {
    let s = spring(n(1), n(1));
    let instant = SpringInstant { reduced_inertia: n(1), displacement: n(10), velocity: n(0) };
    let (impulse, unit) = s.impulse(n(1), instant, None);
    assert_eq!(impulse, n(-10));
    assert_eq!(unit, n(1));
}

#[test]
fn impulse_divides_by_the_timestep() {
    let s = spring(r(500_000), n(0));
    let instant = SpringInstant { reduced_inertia: n(2), displacement: n(-3), velocity: n(0) };
    let (impulse, unit) = s.impulse(r(10_000), instant, None);
    assert_eq!(impulse, n(300));
    assert_eq!(unit, n(-1));
}

#[test]
fn damping_acts_along_the_remembered_axis() {
    // A zero strength leaves no damping; strength 0.25 at ratio 1 damps fully.
    let s = spring(n(0), r(500_000));
    let s2 = spring(r(250_000), n(1));
    let instant = SpringInstant {
        reduced_inertia: Vec2::splat(n(1)),
        displacement: Vec2::new(n(0), n(0)),
        velocity: Vec2::new(n(3), n(4)),
    };
    let (zero_damped, _) = s.impulse(n(1), instant, Some(Vec2::new(n(1), n(0))));
    assert_eq!(zero_damped, Vec2::zero());
    let (along_x, unit) = s2.impulse(n(1), instant, Some(Vec2::new(n(1), n(0))));
    assert_eq!(along_x, Vec2::new(n(-3), n(0)));
    assert_eq!(unit, Vec2::zero());
}

#[test]
fn damping_uses_the_current_axis_without_memory() {
    let s = spring(r(250_000), n(1));
    let instant = SpringInstant {
        reduced_inertia: Vec2::splat(n(1)),
        displacement: Vec2::new(n(0), n(2)),
        velocity: Vec2::new(n(5), n(1)),
    };
    let (impulse, unit) = s.impulse(n(1), instant, None);
    // distance term 2 * 0.25, velocity term 1 along y.
    assert_eq!(impulse, Vec2::new(n(0), r(-1_500_000)));
    assert_eq!(unit, Vec2::new(n(0), n(1)));
}

#[test]
fn swapping_endpoints_negates_the_impulse() {
    let s = spring(r(700_000), r(800_000));
    let a = Particle { inertia: Vec2::splat(n(2)), position: Vec2::new(n(3), n(-1)), velocity: Vec2::new(n(1), n(2)) };
    let b = Particle { inertia: Vec2::splat(n(3)), position: Vec2::new(n(-2), n(5)), velocity: Vec2::new(n(-4), n(1)) };
    let (ab, unit_ab) = s.impulse(r(16_000), a.instant(&b), None);
    let (ba, unit_ba) = s.impulse(r(16_000), b.instant(&a), None);
    assert_eq!(ba, ab.neg());
    assert_eq!(unit_ba, unit_ab.neg());
    assert_ne!(ab, Vec2::zero());
    let last = Vec2::new(r(600_000), r(-800_000));
    let (ab, _) = s.impulse(r(16_000), a.instant(&b), Some(last));
    let (ba, _) = s.impulse(r(16_000), b.instant(&a), Some(last.neg()));
    assert_eq!(ba, ab.neg());
}

#[test]
fn anchored_endpoint_keeps_its_velocity() {
    let s = spring(n(1), n(1));
    let mut a = Particle { inertia: n(1), position: n(4), velocity: n(1) };
    let mut b = Particle { inertia: Real::infinity(), position: n(0), velocity: n(2) };
    for _ in 0..5 {
        let (impulse, _) = s.impulse(n(1), a.instant(&b), None);
        let mut on_a = impulse;
        let mut on_b = impulse.neg();
        symplectic_euler(&mut a, &mut on_a, n(1));
        symplectic_euler(&mut b, &mut on_b, n(1));
        assert_eq!(b.velocity, n(2));
        assert_eq!(on_a, n(0));
        assert_eq!(on_b, n(0));
    }
}

#[test]
fn rest_gives_zero_impulse() {
    for (st, dr) in [(n(1), n(1)), (r(300_000), n(7)), (n(-2), n(40))] {
        let s = spring(st, dr);
        let instant = SpringInstant { reduced_inertia: Vec3::splat(n(5)), displacement: Vec3::zero(), velocity: Vec3::zero() };
        let (impulse, unit) = s.impulse(r(10_000), instant, Some(Vec3::new(n(0), n(1), n(0))));
        assert_eq!(impulse, Vec3::zero());
        assert_eq!(unit, Vec3::zero());
    }
}

#[test]
fn two_anchors_exchange_nothing() {
    let s = spring(n(1), n(1));
    let a = Particle1 { inertia: Real::infinity(), position: n(100), velocity: n(-3) };
    let b = Particle1 { inertia: n(0), position: n(-7), velocity: n(9) };
    let instant = a.instant(&b);
    assert_eq!(instant.reduced_inertia, n(0));
    let (impulse, _) = s.impulse(r(10_000), instant, None);
    assert_eq!(impulse, n(0));
}

#[test]
fn reduced_inertia_of_finite_and_anchored_endpoints() {
    let a = Particle1 { inertia: n(2), position: n(0), velocity: n(0) };
    let b = Particle1 { inertia: n(2), position: n(0), velocity: n(0) };
    let anchor = Particle1 { inertia: Real::infinity(), position: n(0), velocity: n(0) };
    assert_eq!(a.reduced_inertia(&b), n(1));
    assert_eq!(a.reduced_inertia(&anchor), n(2));
}

#[test]
fn translation_particles_splat_the_reduced_mass() {
    let a = TranslationParticle2 { mass: n(1), translation: Vec2::new(n(5), n(1)), velocity: Vec2::new(n(1), n(0)) };
    let b = TranslationParticle2 { mass: n(1), translation: Vec2::new(n(2), n(3)), velocity: Vec2::new(n(0), n(2)) };
    let i = a.instant(&b);
    assert_eq!(a.reduced_mass(&b), r(500_000));
    assert_eq!(i.reduced_inertia, Vec2::splat(r(500_000)));
    assert_eq!(i.displacement, Vec2::new(n(3), n(-2)));
    assert_eq!(i.velocity, Vec2::new(n(1), n(-2)));

    let a = TranslationParticle3 { mass: n(4), translation: Vec3::new(n(1), n(1), n(1)), velocity: Vec3::zero() };
    let b = TranslationParticle3 { mass: n(0), translation: Vec3::zero(), velocity: Vec3::new(n(0), n(0), n(1)) };
    let i = a.instant(&b);
    assert_eq!(i.reduced_inertia, Vec3::splat(n(4)));
    assert_eq!(i.displacement, Vec3::splat(n(1)));
    assert_eq!(i.velocity, Vec3::new(n(0), n(0), n(-1)));
}

#[test]
fn angular_particles() {
    let a = AngularParticle2 { inertia: n(4), rotation: n(2), velocity: n(1) };
    let b = AngularParticle2 { inertia: n(4), rotation: n(-1), velocity: n(4) };
    let i = a.instant(&b);
    assert_eq!(a.reduced_inertia(&b), n(2));
    assert_eq!(i.displacement, n(3));
    assert_eq!(i.velocity, n(-3));

    let a = AngularParticle3 { inertia: Vec3::splat(n(1)), direction: Vec3::new(n(1), n(0), n(0)), velocity: Vec3::new(n(0), n(0), n(1)) };
    let b = AngularParticle3 { inertia: Vec3::splat(n(1)), direction: Vec3::new(n(0), n(1), n(0)), velocity: Vec3::new(n(0), n(0), n(3)) };
    let i = a.instant(&b);
    assert_eq!(i.reduced_inertia, Vec3::splat(r(500_000)));
    assert_eq!(i.displacement, Vec3::new(n(0), n(0), n(1)));
    assert_eq!(i.velocity, Vec3::new(n(0), n(0), n(2)));
}

#[test]
fn mass_inverse() {
    let m = Mass::new(n(4));
    assert_eq!(m.mass(), n(4));
    assert_eq!(m.inverse_mass(), r(250_000));
    assert_eq!(Mass::new(n(0)).inverse_mass(), n(0));
    assert_eq!(Mass::default().mass(), n(1));
    assert_eq!(Mass::default().inverse_mass(), n(1));
}

#[test]
fn symplectic_euler_updates_velocity_before_position() {
    let mut p = Particle { inertia: Vec2::splat(n(2)), position: Vec2::new(n(1), n(1)), velocity: Vec2::new(n(1), n(0)) };
    let mut acc = Vec2::new(n(4), n(-2));
    symplectic_euler(&mut p, &mut acc, r(500_000));
    assert_eq!(p.velocity, Vec2::new(n(3), n(-1)));
    assert_eq!(p.position, Vec2::new(r(2_500_000), r(500_000)));
    assert_eq!(acc, Vec2::zero());
}

#[test]
fn tear_stays_in_the_unit_interval_and_follows_the_force() {
    let mut b = SpringBreak { tear: n(0), tear_force: n(10), tear_step: r(300_000), heal_step: r(200_000) };
    let magnitudes = [12, 3, 15, 15, 15, 15, 0, 0, 0, 0, 0, 0, 10, 9];
    for m in magnitudes {
        let before = b.tear;
        b.impulse(n(m));
        assert!(b.tear.micros >= 0 && b.tear.micros <= 1_000_000);
        if b.tear.micros > before.micros {
            assert!(m >= 10);
        }
        if b.tear.micros < before.micros {
            assert!(m < 10);
        }
    }
    assert_eq!(b.tear, r(100_000));
}

#[test]
fn tear_clamps_at_both_ends() {
    let mut b = SpringBreak { tear: r(900_000), tear_force: n(1), tear_step: r(500_000), heal_step: r(500_000) };
    assert!(b.impulse(n(2)));
    assert_eq!(b.tear, n(1));
    assert!(!b.impulse(n(0)));
    assert!(!b.impulse(n(0)));
    assert!(!b.impulse(n(0)));
    assert_eq!(b.tear, n(0));
}

#[test]
fn default_break_parameters() {
    let b = SpringBreak::default();
    assert_eq!(b.tear, n(0));
    assert_eq!(b.tear_force, n(1));
    assert_eq!(b.tear_step, r(10_000));
    assert_eq!(b.heal_step, r(10_000));
}

#[test]
fn overload_breaks_the_spring_by_the_third_step() {
    let mut state: SpringState<Real> = SpringState::new(spring(n(1), n(1)));
    state.breaking = Some(SpringBreak { tear: n(0), tear_force: n(10), tear_step: r(500_000), heal_step: r(10_000) });
    let instant = SpringInstant { reduced_inertia: n(1), displacement: n(15), velocity: n(0) };
    let first = state.impulse(n(1), instant);
    assert_eq!(first, SpringResult::Impulse(n(-15)));
    assert_eq!(state.breaking.unwrap().tear, r(500_000));
    let _second = state.impulse(n(1), instant);
    let third = state.impulse(n(1), instant);
    assert!(state.breaking.unwrap().tear.micros >= 1_000_000);
    assert_eq!(third, SpringResult::Broke(n(-15)));
}

#[test]
fn state_remembers_the_unit_vector() {
    let mut state: SpringState<Vec2> = SpringState::new(spring(n(1), n(1)));
    assert_eq!(state.last_unit_vector, None);
    let instant = SpringInstant { reduced_inertia: Vec2::splat(n(1)), displacement: Vec2::new(n(0), n(-4)), velocity: Vec2::zero() };
    let result = state.impulse(n(1), instant);
    assert_eq!(result, SpringResult::Impulse(Vec2::new(n(0), n(4))));
    assert_eq!(state.last_unit_vector, Some(Vec2::new(n(0), n(-1))));
    assert_eq!(state.breaking, None);
}

#[test]
fn critically_damped_spring_settles_without_overshoot() {
    let mut state: SpringState<Real> = SpringState::new(spring(n(1), n(1)));
    let mut a = Particle1 { inertia: n(1), position: n(10), velocity: n(0) };
    let mut b = Particle1 { inertia: Real::infinity(), position: n(0), velocity: n(0) };
    let instant = a.instant(&b);
    assert_eq!(instant.reduced_inertia, n(1));
    let first = state.impulse(n(1), instant);
    assert_eq!(first, SpringResult::Impulse(n(-10)));
    let mut impulse = match first {
        SpringResult::Impulse(i) => i,
        SpringResult::Broke(i) => i,
    };
    for _ in 0..20 {
        let mut on_b = impulse.neg();
        symplectic_euler(&mut a, &mut impulse, n(1));
        symplectic_euler(&mut b, &mut on_b, n(1));
        assert!(a.position.micros >= 0);
        assert_eq!(b.velocity, n(0));
        impulse = match state.impulse(n(1), a.instant(&b)) {
            SpringResult::Impulse(i) => i,
            SpringResult::Broke(i) => i,
        };
    }
    assert_eq!(a.position, n(0));
    assert_eq!(a.velocity, n(0));
}

#[test]
fn reduced_inertia_stays_positive_and_below_both() {
    let p = |inertia: Real| Particle1 { inertia, position: n(0), velocity: n(0) };
    assert_eq!(p(r(600_000)).reduced_inertia(&p(n(2))), r(461_539));
    assert_eq!(p(n(2)).reduced_inertia(&p(r(600_000))), r(461_539));
    let big = p(n(600_000)).reduced_inertia(&p(n(2_000_000)));
    assert!(big.micros > 0 && big.micros <= n(600_000).micros);
    assert_eq!(p(r(1)).reduced_inertia(&p(r(1))), r(1));
}
