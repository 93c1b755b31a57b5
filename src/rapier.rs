//! Derives spring endpoints from a rigid body as a physics engine
//! describes it: pose, optional velocity, optional mass properties and a
//! motion kind.
use vstd::prelude::*;
use crate::fixed::{real_of, Real, SCALE};
use crate::kinematic::{Kinematic, Mat3, Vec2, Vec3};
use crate::particle::{AngularParticle2, AngularParticle3, TranslationParticle2, TranslationParticle3};

verus! {

/// How the physics engine moves a body.
#[derive(Clone, Copy, Debug, PartialEq, Eq, Structural)]
pub enum RigidBody {
    Dynamic,
    Fixed,
    KinematicPositionBased,
    KinematicVelocityBased,
}

/// Whether spring impulses are kept off the body: its mass and inertia
/// are then taken as unbounded.
pub open spec fn is_immovable(kind: Option<RigidBody>) -> bool {
    match kind {
        Some(RigidBody::Dynamic) | None => false,
        _ => true,
    }
}

/// Whether the body is expected to carry a velocity and mass properties.
pub open spec fn expects_dynamics(kind: Option<RigidBody>) -> bool {
    kind == Some(RigidBody::Dynamic) || kind == Some(RigidBody::KinematicVelocityBased)
}

fn immovable(kind: Option<RigidBody>) -> (r: bool)
    ensures
        r == is_immovable(kind),
{
    match kind {
        Some(RigidBody::Dynamic) | None => false,
        _ => true,
    }
}

fn dynamic_kind(kind: Option<RigidBody>) -> (r: bool)
    ensures
        r == expects_dynamics(kind),
{
    match kind {
        Some(RigidBody::Dynamic) | Some(RigidBody::KinematicVelocityBased) => true,
        _ => false,
    }
}

/// A planar body's velocity.
#[derive(Clone, Copy, Debug, PartialEq, Eq, Structural)]
pub struct Velocity2 {
    pub linvel: Vec2,
    pub angvel: Real,
}

/// A spatial body's velocity.
#[derive(Clone, Copy, Debug, PartialEq, Eq, Structural)]
pub struct Velocity3 {
    pub linvel: Vec3,
    pub angvel: Vec3,
}

/// A planar body's mass properties.
#[derive(Clone, Copy, Debug, PartialEq, Eq, Structural)]
pub struct MassProperties2 {
    /// Center of mass relative to the body's origin.
    pub local_center_of_mass: Vec2,
    pub mass: Real,
    pub principal_inertia: Real,
}

/// A spatial body's mass properties, with a diagonal inertia.
#[derive(Clone, Copy, Debug, PartialEq, Eq, Structural)]
pub struct MassProperties3 {
    /// Center of mass relative to the body's origin.
    pub local_center_of_mass: Vec3,
    pub mass: Real,
    pub principal_inertia: Vec3,
}

/// A planar rigid body as the spring solver sees it.
#[derive(Clone, Copy, Debug, PartialEq, Eq, Structural)]
pub struct RapierParticleQueryItem2 {
    /// Identity of the body, to tell the two ends of a spring apart.
    pub entity: u64,
    /// World position.
    pub translation: Vec2,
    /// World rotation angle.
    pub rotation: Real,
    pub rigid_body: Option<RigidBody>,
    pub velocity: Option<Velocity2>,
    pub mass: Option<MassProperties2>,
}

/// A spatial rigid body as the spring solver sees it.
#[derive(Clone, Copy, Debug, PartialEq, Eq, Structural)]
pub struct RapierParticleQueryItem {
    /// Identity of the body, to tell the two ends of a spring apart.
    pub entity: u64,
    /// World position.
    pub translation: Vec3,
    /// World rotation.
    pub rotation: Mat3,
    pub rigid_body: Option<RigidBody>,
    pub velocity: Option<Velocity3>,
    pub mass: Option<MassProperties3>,
}

pub open spec fn unit() -> Real {
    real_of(SCALE as int)
}

impl RapierParticleQueryItem2 {
    pub open spec fn spec_velocity(self) -> Velocity2 {
        match self.velocity {
            Some(v) => v,
            None => Velocity2 { linvel: Vec2::spec_zero(), angvel: real_of(0) },
        }
    }

    pub open spec fn spec_mass(self) -> MassProperties2 {
        let base = match self.mass {
            Some(m) => m,
            None => MassProperties2 {
                local_center_of_mass: Vec2::spec_zero(),
                mass: unit(),
                principal_inertia: unit(),
            },
        };
        if is_immovable(self.rigid_body) {
            MassProperties2 { mass: real_of(0), principal_inertia: real_of(0), ..base }
        } else {
            base
        }
    }

    /// The body's motion kind, where it should carry a velocity and does
    /// not; the velocity is then taken as zero.
    pub fn missing_velocity(&self) -> (r: Option<RigidBody>)
        ensures
            r == (if self.velocity.is_none() && expects_dynamics(self.rigid_body) {
                self.rigid_body
            } else {
                None
            }),
    {
        if self.velocity.is_none() && dynamic_kind(self.rigid_body) {
            self.rigid_body
        } else {
            None
        }
    }

    /// The body's motion kind, where it should carry mass properties and
    /// does not; a unit mass and inertia are then used.
    pub fn missing_mass(&self) -> (r: Option<RigidBody>)
        ensures
            r == (if self.mass.is_none() && expects_dynamics(self.rigid_body) {
                self.rigid_body
            } else {
                None
            }),
    {
        if self.mass.is_none() && dynamic_kind(self.rigid_body) {
            self.rigid_body
        } else {
            None
        }
    }

    /// The body's velocity, zero where it has none.
    pub fn velocity(&self) -> (r: Velocity2)
        ensures
            r == self.spec_velocity(),
    {
        match self.velocity {
            Some(v) => v,
            None => Velocity2 { linvel: Vec2::zero(), angvel: Real::zero() },
        }
    }

    /// The body's mass properties: a unit mass and inertia where it has
    /// none, and zero mass and inertia, whose inverses are zero, for a body
    /// that is fixed or driven kinematically.
    pub fn mass(&self) -> (r: MassProperties2)
        ensures
            r == self.spec_mass(),
    {
        let base = match self.mass {
            Some(m) => m,
            None => MassProperties2 {
                local_center_of_mass: Vec2::zero(),
                mass: Real::one(),
                principal_inertia: Real::one(),
            },
        };
        if immovable(self.rigid_body) {
            MassProperties2 { mass: Real::zero(), principal_inertia: Real::zero(), ..base }
        } else {
            base
        }
    }

    /// The body's origin as a translation particle. Its velocity is that of
    /// the origin: the linear velocity plus the angular velocity crossed with
    /// the offset from the center of mass.
    pub fn translation(&self) -> (r: TranslationParticle2)
        ensures
            ({
                let v = self.spec_velocity();
                let m = self.spec_mass();
                let offset = Vec2::spec_zero().spec_sub(m.local_center_of_mass);
                r == TranslationParticle2 {
                    translation: self.translation,
                    velocity: v.linvel.spec_add(
                        Vec2 {
                            x: v.angvel.spec_mul(offset.y).spec_neg(),
                            y: v.angvel.spec_mul(offset.x),
                        },
                    ),
                    mass: m.mass,
                }
            }),
    {
        let velocity = self.velocity();
        let mass = self.mass();
        let offset = Vec2::zero().sub(mass.local_center_of_mass);
        let spin = Vec2 {
            x: velocity.angvel.mul(offset.y).neg(),
            y: velocity.angvel.mul(offset.x),
        };
        TranslationParticle2 {
            translation: self.translation,
            velocity: velocity.linvel.add(spin),
            mass: mass.mass,
        }
    }

    /// The body's rotation as an angular particle.
    pub fn angular(&self) -> (r: AngularParticle2)
        ensures
            r == (AngularParticle2 {
                rotation: self.rotation,
                velocity: self.spec_velocity().angvel,
                inertia: self.spec_mass().principal_inertia,
            }),
    {
        let velocity = self.velocity();
        let mass = self.mass();
        AngularParticle2 {
            rotation: self.rotation,
            velocity: velocity.angvel,
            inertia: mass.principal_inertia,
        }
    }
}

impl RapierParticleQueryItem {
    pub open spec fn spec_velocity(self) -> Velocity3 {
        match self.velocity {
            Some(v) => v,
            None => Velocity3 { linvel: Vec3::spec_zero(), angvel: Vec3::spec_zero() },
        }
    }

    pub open spec fn spec_mass(self) -> MassProperties3 {
        let base = match self.mass {
            Some(m) => m,
            None => MassProperties3 {
                local_center_of_mass: Vec3::spec_zero(),
                mass: unit(),
                principal_inertia: Vec3 { x: unit(), y: unit(), z: unit() },
            },
        };
        if is_immovable(self.rigid_body) {
            MassProperties3 { mass: real_of(0), principal_inertia: Vec3::spec_zero(), ..base }
        } else {
            base
        }
    }

    /// The body's motion kind, where it should carry a velocity and does
    /// not; the velocity is then taken as zero.
    pub fn missing_velocity(&self) -> (r: Option<RigidBody>)
        ensures
            r == (if self.velocity.is_none() && expects_dynamics(self.rigid_body) {
                self.rigid_body
            } else {
                None
            }),
    {
        if self.velocity.is_none() && dynamic_kind(self.rigid_body) {
            self.rigid_body
        } else {
            None
        }
    }

    /// The body's motion kind, where it should carry mass properties and
    /// does not; a unit mass and inertia are then used.
    pub fn missing_mass(&self) -> (r: Option<RigidBody>)
        ensures
            r == (if self.mass.is_none() && expects_dynamics(self.rigid_body) {
                self.rigid_body
            } else {
                None
            }),
    {
        if self.mass.is_none() && dynamic_kind(self.rigid_body) {
            self.rigid_body
        } else {
            None
        }
    }

    /// The body's velocity, zero where it has none.
    pub fn velocity(&self) -> (r: Velocity3)
        ensures
            r == self.spec_velocity(),
    {
        match self.velocity {
            Some(v) => v,
            None => Velocity3 { linvel: Vec3::zero(), angvel: Vec3::zero() },
        }
    }

    /// The body's mass properties: a unit mass and inertia where it has
    /// none, and zero mass and inertia, whose inverses are zero, for a body
    /// that is fixed or driven kinematically.
    pub fn mass(&self) -> (r: MassProperties3)
        ensures
            r == self.spec_mass(),
    {
        let base = match self.mass {
            Some(m) => m,
            None => MassProperties3 {
                local_center_of_mass: Vec3::zero(),
                mass: Real::one(),
                principal_inertia: Vec3::splat(Real::one()),
            },
        };
        if immovable(self.rigid_body) {
            MassProperties3 { mass: Real::zero(), principal_inertia: Vec3::zero(), ..base }
        } else {
            base
        }
    }

    /// The body's origin as a translation particle. Its velocity is that of
    /// the origin: the linear velocity plus the angular velocity crossed with
    /// the offset from the center of mass.
    pub fn translation(&self) -> (r: TranslationParticle3)
        ensures
            ({
                let v = self.spec_velocity();
                let m = self.spec_mass();
                let offset = Vec3::spec_zero().spec_sub(m.local_center_of_mass);
                r == TranslationParticle3 {
                    translation: self.translation,
                    velocity: v.linvel.spec_add(v.angvel.spec_cross(offset)),
                    mass: m.mass,
                }
            }),
    {
        let velocity = self.velocity();
        let mass = self.mass();
        let offset = Vec3::zero().sub(mass.local_center_of_mass);
        TranslationParticle3 {
            translation: self.translation,
            velocity: velocity.linvel.add(velocity.angvel.cross(offset)),
            mass: mass.mass,
        }
    }

    /// The body's orientation, seen through `axis`, as an angular particle.
    pub fn angular(&self, axis: Vec3) -> (r: AngularParticle3)
        ensures
            r == (AngularParticle3 {
                direction: self.rotation.spec_mul_vec3(axis),
                velocity: self.spec_velocity().angvel,
                inertia: self.spec_mass().principal_inertia,
            }),
    {
        let velocity = self.velocity();
        let mass = self.mass();
        AngularParticle3 {
            direction: self.rotation.mul_vec3(axis),
            velocity: velocity.angvel,
            inertia: mass.principal_inertia,
        }
    }

    /// The angular particle seen through the X axis.
    pub fn angular_x(&self) -> (r: AngularParticle3)
        ensures
            r == (AngularParticle3 {
                direction: self.rotation.spec_mul_vec3(Vec3 { x: unit(), y: real_of(0), z: real_of(0) }),
                velocity: self.spec_velocity().angvel,
                inertia: self.spec_mass().principal_inertia,
            }),
            self.rotation.wf() ==> r.direction == self.rotation.x_axis,
    {
        proof {
            if self.rotation.wf() {
                self.rotation.lemma_axes();
            }
        }
        self.angular(Vec3::new(Real::one(), Real::zero(), Real::zero()))
    }

    /// The angular particle seen through the Y axis.
    pub fn angular_y(&self) -> (r: AngularParticle3)
        ensures
            r == (AngularParticle3 {
                direction: self.rotation.spec_mul_vec3(Vec3 { x: real_of(0), y: unit(), z: real_of(0) }),
                velocity: self.spec_velocity().angvel,
                inertia: self.spec_mass().principal_inertia,
            }),
            self.rotation.wf() ==> r.direction == self.rotation.y_axis,
    {
        proof {
            if self.rotation.wf() {
                self.rotation.lemma_axes();
            }
        }
        self.angular(Vec3::new(Real::zero(), Real::one(), Real::zero()))
    }

    /// The angular particle seen through the Z axis.
    pub fn angular_z(&self) -> (r: AngularParticle3)
        ensures
            r == (AngularParticle3 {
                direction: self.rotation.spec_mul_vec3(Vec3 { x: real_of(0), y: real_of(0), z: unit() }),
                velocity: self.spec_velocity().angvel,
                inertia: self.spec_mass().principal_inertia,
            }),
            self.rotation.wf() ==> r.direction == self.rotation.z_axis,
    {
        proof {
            if self.rotation.wf() {
                self.rotation.lemma_axes();
            }
        }
        self.angular(Vec3::new(Real::zero(), Real::zero(), Real::one()))
    }
}

} // verus!
