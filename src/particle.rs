//! Spring endpoints, their reduction to a `SpringInstant`, and the
//! symplectic Euler step that applies an impulse to one of them.
use vstd::prelude::*;
use vstd::arithmetic::div_mod::lemma_div_by_multiple;
use crate::fixed::{
    ceil_div, lemma_ceil_div, lemma_real_neg, lemma_recip_bounds, real_of, Real, MAX, SCALE,
};
use crate::kinematic::{Kinematic, Vec2, Vec3};
use crate::spring::{lemma_impulse_odd, lemma_zero_inertia_no_impulse, neg_option, option_wf, swapped, Spring, SpringInstant};

verus! {

/// `(1/a + 1/b)⁻¹` per axis, where an unbounded or zero side drops out.
pub open spec fn reduce<K: Kinematic>(a: K, b: K) -> K {
    a.spec_inverse().spec_add(b.spec_inverse()).spec_inverse()
}

fn reduced<K: Kinematic>(a: K, b: K) -> (r: K)
    ensures
        r == reduce(a, b),
{
    a.inverse().add(b.inverse()).inverse()
}

/// One endpoint of a spring: a resistance to motion and a kinematic state.
#[derive(Clone, Copy, Debug, PartialEq, Eq, Structural)]
pub struct Particle<K> {
    /// Resistance the particle has to changes in motion.
    pub inertia: K,
    /// Current position of the particle.
    pub position: K,
    /// Current velocity of the particle.
    pub velocity: K,
}

/// A particle on a line.
pub type Particle1 = Particle<Real>;

impl<K: Kinematic> Particle<K> {
    pub open spec fn wf(self) -> bool {
        self.inertia.wf() && self.position.wf() && self.velocity.wf()
    }

    /// Spring impulses do not move this particle: its inverse inertia is zero.
    pub open spec fn is_anchored(self) -> bool {
        self.inertia.spec_inverse() == K::spec_zero()
    }

    pub open spec fn spec_instant(self, other: Particle<K>) -> SpringInstant<K> {
        SpringInstant {
            reduced_inertia: reduce(self.inertia, other.inertia),
            displacement: self.position.spec_sub(other.position),
            velocity: self.velocity.spec_sub(other.velocity),
        }
    }

    /// The velocity once `impulse` has been applied.
    pub open spec fn spec_velocity_after(self, impulse: K) -> K {
        self.velocity.spec_add(impulse.spec_mul(self.inertia.spec_inverse()))
    }

    pub fn reduced_inertia(&self, other: &Particle<K>) -> (r: K)
        ensures
            r == reduce(self.inertia, other.inertia),
    {
        reduced(self.inertia, other.inertia)
    }

    pub fn instant(&self, other: &Particle<K>) -> (r: SpringInstant<K>)
        ensures
            r == self.spec_instant(*other),
    {
        SpringInstant {
            reduced_inertia: self.reduced_inertia(other),
            displacement: self.position.sub(other.position),
            velocity: self.velocity.sub(other.velocity),
        }
    }
}

/// A planar particle's translation.
#[derive(Clone, Copy, Debug, PartialEq, Eq, Structural)]
pub struct TranslationParticle2 {
    /// Resistance the particle has to changes in motion.
    pub mass: Real,
    /// Current translation of the particle.
    pub translation: Vec2,
    /// Current velocity of the particle.
    pub velocity: Vec2,
}

/// A planar particle's rotation.
#[derive(Clone, Copy, Debug, PartialEq, Eq, Structural)]
pub struct AngularParticle2 {
    /// Resistance the particle has to changes in angular motion.
    pub inertia: Real,
    /// Current rotation angle of the particle.
    pub rotation: Real,
    /// Current angular velocity of the particle.
    pub velocity: Real,
}

/// A spatial particle's translation.
#[derive(Clone, Copy, Debug, PartialEq, Eq, Structural)]
pub struct TranslationParticle3 {
    /// Resistance the particle has to changes in motion.
    pub mass: Real,
    /// Current translation of the particle.
    pub translation: Vec3,
    /// Current velocity of the particle.
    pub velocity: Vec3,
}

/// A spatial particle's orientation, seen through one reference axis.
#[derive(Clone, Copy, Debug, PartialEq, Eq, Structural)]
pub struct AngularParticle3 {
    /// Resistance the particle has to changes in angular motion, per axis.
    pub inertia: Vec3,
    /// The particle's reference axis rotated into world space.
    pub direction: Vec3,
    /// Current angular velocity of the particle.
    pub velocity: Vec3,
}

impl TranslationParticle2 {
    pub fn reduced_mass(&self, other: &Self) -> (r: Real)
        ensures
            r == reduce(self.mass, other.mass),
    {
        reduced(self.mass, other.mass)
    }

    pub fn instant(&self, other: &Self) -> (r: SpringInstant<Vec2>)
        ensures
            r == (SpringInstant {
                reduced_inertia: Vec2 {
                    x: reduce(self.mass, other.mass),
                    y: reduce(self.mass, other.mass),
                },
                displacement: self.translation.spec_sub(other.translation),
                velocity: self.velocity.spec_sub(other.velocity),
            }),
    {
        SpringInstant {
            reduced_inertia: Vec2::splat(self.reduced_mass(other)),
            displacement: self.translation.sub(other.translation),
            velocity: self.velocity.sub(other.velocity),
        }
    }
}

impl AngularParticle2 {
    pub fn reduced_inertia(&self, other: &Self) -> (r: Real)
        ensures
            r == reduce(self.inertia, other.inertia),
    {
        reduced(self.inertia, other.inertia)
    }

    pub fn instant(&self, other: &Self) -> (r: SpringInstant<Real>)
        ensures
            r == (SpringInstant {
                reduced_inertia: reduce(self.inertia, other.inertia),
                displacement: self.rotation.spec_sub(other.rotation),
                velocity: self.velocity.spec_sub(other.velocity),
            }),
    {
        SpringInstant {
            reduced_inertia: self.reduced_inertia(other),
            displacement: self.rotation.sub(other.rotation),
            velocity: self.velocity.sub(other.velocity),
        }
    }
}

impl TranslationParticle3 {
    pub fn reduced_mass(&self, other: &Self) -> (r: Real)
        ensures
            r == reduce(self.mass, other.mass),
    {
        reduced(self.mass, other.mass)
    }

    pub fn instant(&self, other: &Self) -> (r: SpringInstant<Vec3>)
        ensures
            r == (SpringInstant {
                reduced_inertia: Vec3 {
                    x: reduce(self.mass, other.mass),
                    y: reduce(self.mass, other.mass),
                    z: reduce(self.mass, other.mass),
                },
                displacement: self.translation.spec_sub(other.translation),
                velocity: self.velocity.spec_sub(other.velocity),
            }),
    {
        SpringInstant {
            reduced_inertia: Vec3::splat(self.reduced_mass(other)),
            displacement: self.translation.sub(other.translation),
            velocity: self.velocity.sub(other.velocity),
        }
    }
}

impl AngularParticle3 {
    pub fn reduced_inertia(&self, other: &Self) -> (r: Vec3)
        ensures
            r == reduce(self.inertia, other.inertia),
    {
        reduced(self.inertia, other.inertia)
    }

    /// The angular displacement is approximated by the cross product of the
    /// two reference axes, which is proportional to the rotation between
    /// them only for small angles. The velocity is the second particle's
    /// angular velocity relative to the first, matching that cross product.
    pub fn instant(&self, other: &Self) -> (r: SpringInstant<Vec3>)
        ensures
            r == (SpringInstant {
                reduced_inertia: reduce(self.inertia, other.inertia),
                displacement: self.direction.spec_cross(other.direction),
                velocity: other.velocity.spec_sub(self.velocity),
            }),
    {
        SpringInstant {
            reduced_inertia: self.reduced_inertia(other),
            displacement: self.direction.cross(other.direction),
            velocity: other.velocity.sub(self.velocity),
        }
    }
}

/// A mass with its inverse; a zero or saturated mass has a zero inverse,
/// so it stands for an immovable body.
#[derive(Clone, Copy, Debug, PartialEq, Eq, Structural)]
pub struct Mass {
    mass: Real,
    inverse_mass: Real,
}


impl Mass {
    pub closed spec fn spec_mass(self) -> Real {
        self.mass
    }

    pub closed spec fn spec_inverse_mass(self) -> Real {
        self.inverse_mass
    }

    pub fn new(mass: Real) -> (r: Mass)
        ensures
            r.spec_mass() == mass,
            r.spec_inverse_mass() == mass.spec_recip(),
    {
        Mass { mass, inverse_mass: mass.recip() }
    }

    pub fn mass(&self) -> (r: Real)
        ensures
            r == self.spec_mass(),
    {
        self.mass
    }

    pub fn inverse_mass(&self) -> (r: Real)
        ensures
            r == self.spec_inverse_mass(),
    {
        self.inverse_mass
    }
}

/// A unit mass.
impl Default for Mass {
    fn default() -> (r: Mass)
        ensures
            r.spec_mass() == real_of(SCALE as int),
            r.spec_inverse_mass() == real_of(SCALE as int),
    {
        proof {
            lemma_div_by_multiple(1_000_000, 1_000_000);
        }
        Mass::new(Real::one())
    }
}

/// Advances `particle` by one step: the accumulated `impulse`, scaled by
/// the inverse inertia, changes the velocity first, the new velocity then
/// moves the position, and the accumulator is emptied.
pub fn symplectic_euler<K: Kinematic>(particle: &mut Particle<K>, impulse: &mut K, timestep: Real)
    ensures
        final(particle).inertia == old(particle).inertia,
        final(particle).velocity == old(particle).spec_velocity_after(*old(impulse)),
        final(particle).position == old(particle).position.spec_add(
            final(particle).velocity.spec_scale(timestep),
        ),
        *final(impulse) == K::spec_zero(),
{
    let step = impulse.mul(particle.inertia.inverse());
    particle.velocity = particle.velocity.add(step);
    particle.position = particle.position.add(particle.velocity.scale(timestep));
    *impulse = K::zero();
}

/// Exchanging the endpoints negates the impulse: the impulse on one end is
/// the opposite of the impulse on the other, given a remembered axis seen
/// from the same end.
pub proof fn lemma_swap_endpoints<K: Kinematic>(
    spring: Spring,
    timestep: Real,
    a: Particle<K>,
    b: Particle<K>,
    last_unit_vector: Option<K>,
)
    requires
        a.wf(),
        b.wf(),
        option_wf(last_unit_vector),
    ensures
        spring.spec_impulse(timestep, b.spec_instant(a), neg_option(last_unit_vector)) == (
            spring.spec_impulse(timestep, a.spec_instant(b), last_unit_vector).0.spec_neg(),
            spring.spec_impulse(timestep, a.spec_instant(b), last_unit_vector).1.spec_neg(),
        ),
{
    let ia = a.inertia.spec_inverse();
    let ib = b.inertia.spec_inverse();
    K::lemma_wf(a.inertia, b.inertia, real_of(0));
    K::lemma_wf(b.inertia, a.inertia, real_of(0));
    K::lemma_neg(ia, ib, real_of(0));
    K::lemma_neg(a.position, b.position, real_of(0));
    K::lemma_neg(a.velocity, b.velocity, real_of(0));
    K::lemma_wf(ia, ib, real_of(0));
    K::lemma_wf(ia.spec_add(ib), ib, real_of(0));
    K::lemma_wf(a.position, b.position, real_of(0));
    K::lemma_wf(a.velocity, b.velocity, real_of(0));
    assert(b.spec_instant(a) == swapped(a.spec_instant(b)));
    lemma_impulse_odd(spring, timestep, a.spec_instant(b), last_unit_vector);
}

/// Two finite positive inertias reduce to a positive inertia no larger
/// than either, whichever side comes first.
pub proof fn lemma_reduced_inertia_bounds(a: Real, b: Real)
    requires
        0 < a.val() < MAX,
        0 < b.val() < MAX,
    ensures
        reduce(a, b) == reduce(b, a),
        0 < reduce(a, b).val(),
        reduce(a, b).val() <= a.val(),
        reduce(a, b).val() <= b.val(),
{
    let k = SCALE * SCALE;
    lemma_recip_bounds(a);
    lemma_recip_bounds(b);
    let ia = a.spec_recip().val();
    let ib = b.spec_recip().val();
    lemma_real_neg(a.spec_recip(), b.spec_recip());
    let sum = ia + ib;
    assert(a.spec_recip().spec_add(b.spec_recip()).val() == sum);
    lemma_ceil_div(k, sum);
    let q = ceil_div(k, sum);
    let xa = a.val();
    assert(ia * xa <= sum * xa) by (nonlinear_arith)
        requires
            sum == ia + ib,
            ib > 0,
            xa > 0,
    ;
    assert((q - 1) * sum < xa * sum);
    assert(q - 1 < xa) by (nonlinear_arith)
        requires
            (q - 1) * sum < xa * sum,
            sum > 0,
    ;
    let xb = b.val();
    assert(ib * xb <= sum * xb) by (nonlinear_arith)
        requires
            sum == ia + ib,
            ia > 0,
            xb > 0,
    ;
    assert((q - 1) * sum < xb * sum);
    assert(q - 1 < xb) by (nonlinear_arith)
        requires
            (q - 1) * sum < xb * sum,
            sum > 0,
    ;
}

/// An anchored particle keeps its velocity whatever impulse is applied.
pub proof fn lemma_anchor_invariance<K: Kinematic>(p: Particle<K>, impulse: K)
    requires
        p.is_anchored(),
        p.velocity.wf(),
        impulse.wf(),
    ensures
        p.spec_velocity_after(impulse) == p.velocity,
{
    K::lemma_zero(impulse, real_of(0));
    K::lemma_zero(p.velocity, real_of(0));
}

/// Between two anchored particles the impulse is zero for any positions,
/// velocities and remembered axis.
pub proof fn lemma_both_anchored_no_impulse<K: Kinematic>(
    spring: Spring,
    timestep: Real,
    a: Particle<K>,
    b: Particle<K>,
    last_unit_vector: Option<K>,
)
    requires
        a.is_anchored(),
        b.is_anchored(),
    ensures
        a.spec_instant(b).reduced_inertia == K::spec_zero(),
        spring.spec_impulse(timestep, a.spec_instant(b), last_unit_vector).0 == K::spec_zero(),
{
    let z = K::spec_zero();
    K::lemma_wf(z, z, real_of(0));
    K::lemma_zero(z, real_of(0));
    lemma_zero_inertia_no_impulse(
        spring,
        timestep,
        a.spec_instant(b).displacement,
        a.spec_instant(b).velocity,
        last_unit_vector,
    );
}

} // verus!
