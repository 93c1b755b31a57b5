//! A damped spring solver over fixed-point kinematic quantities.
//!
//! Two endpoints are reduced to a `SpringInstant` (reduced inertia,
//! displacement, relative velocity); a `Spring` turns that into an impulse
//! that is stable under a symplectic Euler step; a `SpringState` carries the
//! damping axis and the tear bookkeeping from one step to the next.
pub mod fixed;
pub mod kinematic;
pub mod particle;
pub mod rapier;
pub mod settings;
pub mod spring;
pub mod state;

pub use fixed::Real;
pub use kinematic::{Kinematic, Mat3, Vec2, Vec3};
pub use particle::{
    symplectic_euler, AngularParticle2, AngularParticle3, Mass, Particle, Particle1,
    TranslationParticle2, TranslationParticle3,
};
pub use rapier::{RapierParticleQueryItem, RapierParticleQueryItem2, RigidBody};
pub use settings::{spring_impulse, SpringEnd, SpringSettings};
pub use spring::{Spring, SpringInstant};
pub use state::{SpringBreak, SpringResult, SpringState};
