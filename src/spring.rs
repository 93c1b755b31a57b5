//! Spring parameters and the damped impulse they produce.
use vstd::prelude::*;
use crate::fixed::{real_of, Real, SCALE};
use crate::kinematic::Kinematic;

verus! {

/// Upper bound of the damp ratio once clamped.
pub const MAX_DAMP_RATIO: i64 = 20;

/// Tunable spring parameters. They may hold any value: the accessors clamp
/// them to their valid ranges when read.
#[derive(Clone, Copy, Debug, PartialEq, Eq, Structural)]
pub struct Spring {
    /// Strength of the impulse, between 0 and 1, where 1 brings the spring to
    /// rest in one timestep.
    pub strength: Real,
    /// Damping relative to critical: below 1 the spring overshoots, from 1 on
    /// it should not (the derived coefficient is clamped for stability).
    pub damp_ratio: Real,
}

/// The two endpoints of a spring reduced to what the impulse needs.
#[derive(Clone, Copy, Debug, PartialEq, Eq, Structural)]
pub struct SpringInstant<K> {
    pub reduced_inertia: K,
    /// Relative position of the endpoints.
    pub displacement: K,
    /// Relative velocity of the endpoints.
    pub velocity: K,
}

impl<K: Kinematic> SpringInstant<K> {
    pub open spec fn wf(self) -> bool {
        self.reduced_inertia.wf() && self.displacement.wf() && self.velocity.wf()
    }
}

impl Default for Spring {
    fn default() -> (r: Spring)
        ensures
            r == (Spring { strength: real_of(0), damp_ratio: real_of(0) }),
    {
        Spring { strength: Real::zero(), damp_ratio: Real::zero() }
    }
}

impl Spring {
    pub open spec fn spec_strength(self) -> Real {
        self.strength.spec_clamp(real_of(0), real_of(SCALE as int))
    }

    pub open spec fn spec_damp_ratio(self) -> Real {
        self.damp_ratio.spec_clamp(real_of(0), real_of(MAX_DAMP_RATIO * SCALE))
    }

    /// `2 * damp_ratio * sqrt(strength)`, clamped to `[0, 1]`.
    pub open spec fn spec_damping(self) -> Real {
        self.spec_damp_ratio().spec_mul(real_of(2 * SCALE)).spec_mul(
            self.spec_strength().spec_sqrt(),
        ).spec_clamp(real_of(0), real_of(SCALE as int))
    }

    /// The impulse on the first endpoint and the unit vector of the
    /// displacement. Damping acts along `last_unit_vector` where one is
    /// given, else along the current unit vector.
    pub open spec fn spec_impulse<K: Kinematic>(
        self,
        timestep: Real,
        instant: SpringInstant<K>,
        last_unit_vector: Option<K>,
    ) -> (K, K) {
        let unit = instant.displacement.spec_normalize_or_zero();
        let distance_error = unit.spec_scale(instant.displacement.spec_length());
        let direction = match last_unit_vector {
            Some(d) => d,
            None => unit,
        };
        let velocity_along = direction.spec_scale(instant.velocity.spec_dot(direction));
        let inverse_timestep = real_of(SCALE as int).spec_div(timestep);
        let distance_impulse = distance_error.spec_mul(instant.reduced_inertia).spec_scale(
            self.spec_strength(),
        ).spec_scale(inverse_timestep);
        let velocity_impulse = velocity_along.spec_mul(instant.reduced_inertia).spec_scale(
            self.spec_damping(),
        );
        (distance_impulse.spec_add(velocity_impulse).spec_neg(), unit)
    }

    /// The strength, clamped to `[0, 1]`.
    pub fn strength(&self) -> (r: Real)
        ensures
            r == self.spec_strength(),
            0 <= r.val() <= SCALE,
    {
        self.strength.clamp(Real::zero(), Real::one())
    }

    /// The damp ratio, clamped to `[0, 20]`.
    pub fn damp_ratio(&self) -> (r: Real)
        ensures
            r == self.spec_damp_ratio(),
            0 <= r.val() <= MAX_DAMP_RATIO * SCALE,
    {
        self.damp_ratio.clamp(Real::zero(), Real::from_micros(MAX_DAMP_RATIO * SCALE))
    }

    /// The coefficient multiplied into the velocity term.
    pub fn damping(&self) -> (r: Real)
        ensures
            r == self.spec_damping(),
            0 <= r.val() <= SCALE,
    {
        let two = Real::from_int(2);
        self.damp_ratio().mul(two).mul(self.strength().sqrt()).clamp(Real::zero(), Real::one())
    }

    /// The impulse that pulls the endpoints of `instant` toward rest over
    /// one `timestep`, with the unit vector to remember for the next step.
    pub fn impulse<K: Kinematic>(
        &self,
        timestep: Real,
        instant: SpringInstant<K>,
        last_unit_vector: Option<K>,
    ) -> (r: (K, K))
        requires
            timestep.val() > 0,
        ensures
            r == self.spec_impulse(timestep, instant, last_unit_vector),
    {
        let unit = instant.displacement.normalize_or_zero();
        let distance_error = unit.scale(instant.displacement.length());
        let direction = match last_unit_vector {
            Some(d) => d,
            None => unit,
        };
        let velocity_along = direction.scale(instant.velocity.dot(direction));
        let inverse_timestep = Real::one().div(timestep);
        let distance_impulse = distance_error.mul(instant.reduced_inertia).scale(
            self.strength(),
        ).scale(inverse_timestep);
        let velocity_impulse = velocity_along.mul(instant.reduced_inertia).scale(self.damping());
        (distance_impulse.add(velocity_impulse).neg(), unit)
    }
}

/// The instant seen from the other endpoint: same reduced inertia, negated
/// displacement and velocity.
pub open spec fn swapped<K: Kinematic>(instant: SpringInstant<K>) -> SpringInstant<K> {
    SpringInstant {
        reduced_inertia: instant.reduced_inertia,
        displacement: instant.displacement.spec_neg(),
        velocity: instant.velocity.spec_neg(),
    }
}

pub open spec fn neg_option<K: Kinematic>(v: Option<K>) -> Option<K> {
    match v {
        Some(d) => Some(d.spec_neg()),
        None => None,
    }
}

pub open spec fn option_wf<K: Kinematic>(v: Option<K>) -> bool {
    match v {
        Some(d) => d.wf(),
        None => true,
    }
}

/// The impulse is odd under an exchange of endpoints: negating the
/// displacement, the velocity and the remembered axis negates both the
/// impulse and the unit vector.
pub proof fn lemma_impulse_odd<K: Kinematic>(
    spring: Spring,
    timestep: Real,
    instant: SpringInstant<K>,
    last_unit_vector: Option<K>,
)
    requires
        instant.wf(),
        option_wf(last_unit_vector),
    ensures
        spring.spec_impulse(timestep, swapped(instant), neg_option(last_unit_vector)) == (
            spring.spec_impulse(timestep, instant, last_unit_vector).0.spec_neg(),
            spring.spec_impulse(timestep, instant, last_unit_vector).1.spec_neg(),
        ),
{
    let d = instant.displacement;
    let v = instant.velocity;
    let ri = instant.reduced_inertia;
    let st = spring.spec_strength();
    let dm = spring.spec_damping();
    let it = real_of(SCALE as int).spec_div(timestep);
    let unit = d.spec_normalize_or_zero();
    let len = d.spec_length();
    K::lemma_wf(d, v, len);
    K::lemma_neg(d, v, len);
    K::lemma_neg(unit, v, len);
    K::lemma_wf(unit, v, len);
    let err = unit.spec_scale(len);
    let dir = match last_unit_vector {
        Some(w) => w,
        None => unit,
    };
    let x = v.spec_dot(dir);
    K::lemma_wf(v, dir, x);
    K::lemma_wf(dir, v, x);
    K::lemma_neg(v, dir, x);
    K::lemma_neg(v, dir.spec_neg(), x);
    K::lemma_wf(v, dir.spec_neg(), x);
    <Real as Kinematic>::lemma_neg(x, x, x);
    K::lemma_neg(dir, v, x);
    let along = dir.spec_scale(x);
    K::lemma_wf(err, ri, st);
    K::lemma_neg(err, ri, st);
    let m1 = err.spec_mul(ri);
    K::lemma_wf(m1, ri, st);
    K::lemma_neg(m1, ri, st);
    let m2 = m1.spec_scale(st);
    K::lemma_wf(m2, ri, it);
    K::lemma_neg(m2, ri, it);
    let p = m2.spec_scale(it);
    K::lemma_wf(along, ri, dm);
    K::lemma_neg(along, ri, dm);
    let n1 = along.spec_mul(ri);
    K::lemma_wf(n1, ri, dm);
    K::lemma_neg(n1, ri, dm);
    let q = n1.spec_scale(dm);
    K::lemma_wf(p, q, dm);
    K::lemma_neg(p, q, dm);
}

/// With no displacement and no velocity the impulse is zero, whatever the
/// spring's parameters and the remembered axis.
pub proof fn lemma_rest_is_stable<K: Kinematic>(
    spring: Spring,
    timestep: Real,
    reduced_inertia: K,
    last_unit_vector: Option<K>,
)
    requires
        reduced_inertia.wf(),
        option_wf(last_unit_vector),
    ensures
        spring.spec_impulse(
            timestep,
            SpringInstant {
                reduced_inertia,
                displacement: K::spec_zero(),
                velocity: K::spec_zero(),
            },
            last_unit_vector,
        ).0 == K::spec_zero(),
{
    let z = K::spec_zero();
    K::lemma_wf(z, z, real_of(0));
    K::lemma_zero(z, real_of(0));
    K::lemma_zero(reduced_inertia, spring.spec_strength());
    K::lemma_zero(reduced_inertia, spring.spec_damping());
    K::lemma_zero(reduced_inertia, real_of(SCALE as int).spec_div(timestep));
    match last_unit_vector {
        Some(w) => {
            K::lemma_zero(w, real_of(0));
        },
        None => {},
    }
}

/// With a zero reduced inertia, as between two endpoints of unbounded
/// inertia, the impulse is zero for any displacement and velocity.
pub proof fn lemma_zero_inertia_no_impulse<K: Kinematic>(
    spring: Spring,
    timestep: Real,
    displacement: K,
    velocity: K,
    last_unit_vector: Option<K>,
)
    ensures
        spring.spec_impulse(
            timestep,
            SpringInstant { reduced_inertia: K::spec_zero(), displacement, velocity },
            last_unit_vector,
        ).0 == K::spec_zero(),
{
    let z = K::spec_zero();
    let unit = displacement.spec_normalize_or_zero();
    let len = displacement.spec_length();
    K::lemma_wf(unit, z, len);
    let err = unit.spec_scale(len);
    K::lemma_wf(err, z, len);
    K::lemma_zero(err, spring.spec_strength());
    K::lemma_wf(z, z, len);
    K::lemma_zero(z, spring.spec_strength());
    K::lemma_zero(z, real_of(SCALE as int).spec_div(timestep));
    K::lemma_zero(z, spring.spec_damping());
    let dir = match last_unit_vector {
        Some(w) => w,
        None => unit,
    };
    let x = velocity.spec_dot(dir);
    K::lemma_wf(dir, z, x);
    K::lemma_zero(dir.spec_scale(x), real_of(0));
}

} // verus!
