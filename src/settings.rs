//! A planar spring with a rest length and a slack zone, acting between
//! bodies that carry their own mass.
use vstd::prelude::*;
use crate::fixed::{real_of, Real, SCALE};
use crate::kinematic::{Kinematic, Vec2};
use crate::particle::Mass;

verus! {

/// Parameters of a spring with a rest length. The coefficients are used as
/// given.
#[derive(Clone, Copy, Debug, PartialEq, Eq, Structural)]
pub struct SpringSettings {
    pub strength: Real,
    pub damping: Real,
    /// Separation at which the spring exerts no force.
    pub rest_distance: Real,
    /// Separation below which the spring is slack.
    pub limp_distance: Real,
}

/// One end of a spring: a body's identity, position, velocity and mass.
#[derive(Clone, Copy, Debug, PartialEq, Eq, Structural)]
pub struct SpringEnd {
    pub entity: u64,
    pub translation: Vec2,
    pub velocity: Vec2,
    pub mass: Mass,
}

impl SpringSettings {
    /// How far the spring is stretched beyond its rest length, or zero
    /// while it is slack or compressed.
    pub open spec fn spec_distance_error(self, length: Real) -> Real {
        if length.val() < self.limp_distance.val() {
            real_of(0)
        } else if length.spec_sub(self.rest_distance).val() < 0 {
            real_of(0)
        } else {
            length.spec_sub(self.rest_distance)
        }
    }

    /// The impulse on the end at `displacement` relative to the other end,
    /// moving at `velocity` relative to it.
    pub open spec fn spec_impulse(
        self,
        timestep: Real,
        reduced_mass: Real,
        displacement: Vec2,
        velocity: Vec2,
    ) -> Vec2 {
        let unit = displacement.spec_normalize_or_zero();
        let distance_error = unit.spec_scale(self.spec_distance_error(displacement.spec_length()));
        let velocity_along = unit.spec_scale(velocity.spec_dot(unit));
        let inverse_timestep = real_of(SCALE as int).spec_div(timestep);
        let distance_impulse = distance_error.spec_scale(self.strength).spec_scale(
            inverse_timestep,
        ).spec_scale(reduced_mass);
        let velocity_impulse = velocity_along.spec_scale(self.damping).spec_scale(reduced_mass);
        distance_impulse.spec_add(velocity_impulse).spec_neg()
    }

    pub fn distance_error(&self, length: Real) -> (r: Real)
        ensures
            r == self.spec_distance_error(length),
    {
        if length.micros < self.limp_distance.micros {
            Real::zero()
        } else {
            let stretch = length.sub(self.rest_distance);
            if stretch.micros < 0 {
                Real::zero()
            } else {
                stretch
            }
        }
    }

    pub fn impulse(&self, timestep: Real, reduced_mass: Real, displacement: Vec2, velocity: Vec2) -> (r: Vec2)
        requires
            timestep.val() > 0,
        ensures
            r == self.spec_impulse(timestep, reduced_mass, displacement, velocity),
    {
        let unit = displacement.normalize_or_zero();
        let distance_error = unit.scale(self.distance_error(displacement.length()));
        let velocity_along = unit.scale(velocity.dot(unit));
        let inverse_timestep = Real::one().div(timestep);
        let distance_impulse = distance_error.scale(self.strength).scale(inverse_timestep).scale(
            reduced_mass,
        );
        let velocity_impulse = velocity_along.scale(self.damping).scale(reduced_mass);
        distance_impulse.add(velocity_impulse).neg()
    }
}

/// `(1/a + 1/b)⁻¹` from the two inverse masses, zero where both are zero.
pub open spec fn reduced_mass(a: Mass, b: Mass) -> Real {
    a.spec_inverse_mass().spec_add(b.spec_inverse_mass()).spec_recip()
}

/// Applies one step of the spring between `spring_end` and `particle_end`
/// to their accumulated impulses: the particle end receives the impulse and
/// the spring end its opposite. Nothing happens on a step that is not
/// positive, or where both ends are the same body.
pub fn spring_impulse(
    settings: &SpringSettings,
    timestep: Real,
    spring_end: &SpringEnd,
    particle_end: &SpringEnd,
    spring_impulse: &mut Vec2,
    particle_impulse: &mut Vec2,
)
    ensures
        timestep.val() <= 0 || spring_end.entity == particle_end.entity ==> *final(spring_impulse)
            == *old(spring_impulse) && *final(particle_impulse) == *old(particle_impulse),
        timestep.val() > 0 && spring_end.entity != particle_end.entity ==> ({
            let imp = settings.spec_impulse(
                timestep,
                reduced_mass(spring_end.mass, particle_end.mass),
                particle_end.translation.spec_sub(spring_end.translation),
                particle_end.velocity.spec_sub(spring_end.velocity),
            );
            &&& *final(spring_impulse) == old(spring_impulse).spec_sub(imp)
            &&& *final(particle_impulse) == old(particle_impulse).spec_add(imp)
        }),
{
    if timestep.micros <= 0 || spring_end.entity == particle_end.entity {
        return;
    }
    let reduced = spring_end.mass.inverse_mass().add(particle_end.mass.inverse_mass()).recip();
    let displacement = particle_end.translation.sub(spring_end.translation);
    let velocity = particle_end.velocity.sub(spring_end.velocity);
    let imp = settings.impulse(timestep, reduced, displacement, velocity);
    *spring_impulse = spring_impulse.sub(imp);
    *particle_impulse = particle_impulse.add(imp);
}

} // verus!
