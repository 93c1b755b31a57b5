use springy::fixed::Real;
use springy::kinematic::{Kinematic, Mat3, Vec2, Vec3};
use springy::rapier::{MassProperties2, MassProperties3, Velocity2, Velocity3};
use springy::{
    spring_impulse, Mass, RapierParticleQueryItem, RapierParticleQueryItem2, RigidBody, SpringEnd,
    SpringSettings,
};

fn r(micros: i64) -> Real {
    Real::from_micros(micros)
}

fn n(units: i32) -> Real {
    Real::from_int(units)
}

fn identity() -> Mat3 {
    Mat3 {
        x_axis: Vec3::new(n(1), n(0), n(0)),
        y_axis: Vec3::new(n(0), n(1), n(0)),
        z_axis: Vec3::new(n(0), n(0), n(1)),
    }
}

fn body3(kind: Option<RigidBody>, velocity: Option<Velocity3>, mass: Option<MassProperties3>) -> RapierParticleQueryItem {
    RapierParticleQueryItem {
        entity: 7,
        translation: Vec3::new(n(1), n(2), n(3)),
        rotation: identity(),
        rigid_body: kind,
        velocity,
        mass,
    }
}

fn body2(kind: Option<RigidBody>, velocity: Option<Velocity2>, mass: Option<MassProperties2>) -> RapierParticleQueryItem2 {
    RapierParticleQueryItem2 {
        entity: 3,
        translation: Vec2::new(n(4), n(5)),
        rotation: r(500_000),
        rigid_body: kind,
        velocity,
        mass,
    }
}

#[test]
fn missing_velocity_defaults_to_rest_and_is_reported() {
    let b = body3(Some(RigidBody::Dynamic), None, None);
    assert_eq!(b.velocity(), Velocity3 { linvel: Vec3::zero(), angvel: Vec3::zero() });
    assert_eq!(b.missing_velocity(), Some(RigidBody::Dynamic));
    let b = body3(Some(RigidBody::KinematicVelocityBased), None, None);
    assert_eq!(b.missing_velocity(), Some(RigidBody::KinematicVelocityBased));
    let b = body3(Some(RigidBody::Fixed), None, None);
    assert_eq!(b.missing_velocity(), None);
    let b = body3(None, None, None);
    assert_eq!(b.missing_velocity(), None);
}

#[test]
fn present_velocity_is_used() {
    let v = Velocity3 { linvel: Vec3::new(n(1), n(0), n(0)), angvel: Vec3::new(n(0), n(0), n(2)) };
    let b = body3(Some(RigidBody::Dynamic), Some(v), None);
    assert_eq!(b.velocity(), v);
    assert_eq!(b.missing_velocity(), None);
}

#[test]
fn missing_mass_defaults_to_unit() {
    let b = body3(Some(RigidBody::Dynamic), None, None);
    let m = b.mass();
    assert_eq!(m.mass, n(1));
    assert_eq!(m.principal_inertia, Vec3::splat(n(1)));
    assert_eq!(m.local_center_of_mass, Vec3::zero());
    assert_eq!(b.missing_mass(), Some(RigidBody::Dynamic));
    let b = body3(Some(RigidBody::KinematicPositionBased), None, None);
    assert_eq!(b.missing_mass(), None);
}

#[test]
fn immovable_bodies_get_unbounded_mass() {
    let given = MassProperties3 { local_center_of_mass: Vec3::new(n(1), n(0), n(0)), mass: n(5), principal_inertia: Vec3::splat(n(2)) };
    for kind in [RigidBody::Fixed, RigidBody::KinematicPositionBased, RigidBody::KinematicVelocityBased] {
        let m = body3(Some(kind), None, Some(given)).mass();
        assert_eq!(m.mass, n(0));
        assert_eq!(m.principal_inertia, Vec3::zero());
        assert_eq!(m.local_center_of_mass, given.local_center_of_mass);
        assert_eq!(Kinematic::inverse(m.mass), n(0));
        assert_eq!(m.principal_inertia.inverse(), Vec3::zero());
    }
    assert_eq!(body3(Some(RigidBody::Dynamic), None, Some(given)).mass(), given);
    assert_eq!(body3(None, None, Some(given)).mass(), given);
}

#[test]
fn spatial_translation_adds_the_spin_at_the_origin() {
    let v = Velocity3 { linvel: Vec3::new(n(1), n(0), n(0)), angvel: Vec3::new(n(0), n(0), n(2)) };
    let m = MassProperties3 { local_center_of_mass: Vec3::new(n(1), n(0), n(0)), mass: n(3), principal_inertia: Vec3::splat(n(1)) };
    let p = body3(Some(RigidBody::Dynamic), Some(v), Some(m)).translation();
    // (0, 0, 2) x (-1, 0, 0) = (0, -2, 0)
    assert_eq!(p.velocity, Vec3::new(n(1), n(-2), n(0)));
    assert_eq!(p.translation, Vec3::new(n(1), n(2), n(3)));
    assert_eq!(p.mass, n(3));
}

#[test]
fn spatial_angular_particles() {
    let v = Velocity3 { linvel: Vec3::zero(), angvel: Vec3::new(n(0), n(1), n(0)) };
    let m = MassProperties3 { local_center_of_mass: Vec3::zero(), mass: n(3), principal_inertia: Vec3::new(n(1), n(2), n(3)) };
    let mut b = body3(Some(RigidBody::Dynamic), Some(v), Some(m));
    b.rotation = Mat3 {
        x_axis: Vec3::new(n(0), n(1), n(0)),
        y_axis: Vec3::new(n(-1), n(0), n(0)),
        z_axis: Vec3::new(n(0), n(0), n(1)),
    };
    let x = b.angular_x();
    assert_eq!(x.direction, Vec3::new(n(0), n(1), n(0)));
    assert_eq!(x.velocity, Vec3::new(n(0), n(1), n(0)));
    assert_eq!(x.inertia, Vec3::new(n(1), n(2), n(3)));
    assert_eq!(b.angular_y().direction, Vec3::new(n(-1), n(0), n(0)));
    assert_eq!(b.angular_z().direction, Vec3::new(n(0), n(0), n(1)));
    assert_eq!(b.angular(Vec3::new(n(1), n(1), n(0))).direction, Vec3::new(n(-1), n(1), n(0)));
}

#[test]
fn planar_body_particles() {
    let v = Velocity2 { linvel: Vec2::new(n(1), n(1)), angvel: n(2) };
    let m = MassProperties2 { local_center_of_mass: Vec2::new(n(0), n(1)), mass: n(2), principal_inertia: n(4) };
    let b = body2(Some(RigidBody::Dynamic), Some(v), Some(m));
    let t = b.translation();
    // spin 2 at offset (0, -1): (-2 * -1, 2 * 0) = (2, 0)
    assert_eq!(t.velocity, Vec2::new(n(3), n(1)));
    assert_eq!(t.translation, Vec2::new(n(4), n(5)));
    assert_eq!(t.mass, n(2));
    let a = b.angular();
    assert_eq!(a.rotation, r(500_000));
    assert_eq!(a.velocity, n(2));
    assert_eq!(a.inertia, n(4));
}

#[test]
fn planar_fixed_body_defaults() {
    let b = body2(Some(RigidBody::Fixed), None, None);
    assert_eq!(b.velocity(), Velocity2 { linvel: Vec2::zero(), angvel: n(0) });
    assert_eq!(b.mass().mass, n(0));
    assert_eq!(b.mass().principal_inertia, n(0));
    assert_eq!(b.missing_mass(), None);
    let b = body2(Some(RigidBody::Dynamic), None, None);
    assert_eq!(b.missing_mass(), Some(RigidBody::Dynamic));
    assert_eq!(b.missing_velocity(), Some(RigidBody::Dynamic));
    assert_eq!(b.mass().mass, n(1));
    assert_eq!(b.angular().inertia, n(1));
}

fn end(entity: u64, x: i32, mass: Real) -> SpringEnd {
    SpringEnd { entity, translation: Vec2::new(n(x), n(0)), velocity: Vec2::zero(), mass: Mass::new(mass) }
}

fn settings() -> SpringSettings {
    SpringSettings { strength: n(1), damping: n(1), rest_distance: n(5), limp_distance: n(5) }
}

#[test]
fn distance_error_with_rest_and_slack() {
    let s = SpringSettings { strength: n(1), damping: n(1), rest_distance: n(5), limp_distance: n(2) };
    assert_eq!(s.distance_error(n(1)), n(0));
    assert_eq!(s.distance_error(n(3)), n(0));
    assert_eq!(s.distance_error(n(8)), n(3));
}

#[test]
fn settings_spring_pulls_the_particle_back() {
    let anchor = end(1, 0, n(0));
    let particle = end(2, 8, n(1));
    let mut on_anchor = Vec2::zero();
    let mut on_particle = Vec2::new(n(1), n(0));
    spring_impulse(&settings(), r(10_000), &anchor, &particle, &mut on_anchor, &mut on_particle);
    // 3 beyond rest, strength 1, step 0.01, reduced mass 1.
    assert_eq!(on_particle, Vec2::new(n(-299), n(0)));
    assert_eq!(on_anchor, Vec2::new(n(300), n(0)));
}

#[test]
fn settings_spring_is_slack_inside_the_limp_distance() {
    let anchor = end(1, 0, n(0));
    let particle = end(2, 4, n(1));
    let mut on_anchor = Vec2::zero();
    let mut on_particle = Vec2::zero();
    spring_impulse(&settings(), r(10_000), &anchor, &particle, &mut on_anchor, &mut on_particle);
    assert_eq!(on_particle, Vec2::zero());
    assert_eq!(on_anchor, Vec2::zero());
}

#[test]
fn settings_spring_skips_self_reference_and_zero_step() {
    let a = end(1, 0, n(1));
    let same = end(1, 9, n(1));
    let other = end(2, 9, n(1));
    let mut x = Vec2::new(n(1), n(2));
    let mut y = Vec2::new(n(3), n(4));
    spring_impulse(&settings(), r(10_000), &a, &same, &mut x, &mut y);
    spring_impulse(&settings(), n(0), &a, &other, &mut x, &mut y);
    assert_eq!(x, Vec2::new(n(1), n(2)));
    assert_eq!(y, Vec2::new(n(3), n(4)));
}
