//! Narrow-phase collision detection and impulse-based resolution for a 2D
//! rigid-body simulator, carried out in fixed-point integer arithmetic.
//!
//! Scalars with a fractional interpretation (contact normals, restitution
//! coefficients, the timestep) are stored as multiples of `1 / FIXED_ONE`;
//! positions, velocities, forces and shape dimensions are whole world units,
//! whose granularity the host chooses.

pub mod collision_primitives;
pub mod math;
pub mod resolve;
pub mod rigidbody;
pub mod step;
pub mod vec2;

pub use collision_primitives::{detect, CircleCollider, CollisionData, Primitives, AABB};
pub use math::{FIXED_ONE, WORLD_MAX};
pub use resolve::resolve_collision;
pub use rigidbody::{integrate, Mass, Restitution, Rigidbody};
pub use step::{check_AABB_collision, check_circle_collision, step};
pub use vec2::{Pose, Vec2};

use vstd::prelude::*;

verus! {

/// Why a construction-time validation rejected its input.
#[derive(Clone, Copy, Debug, PartialEq, Eq, Structural)]
pub enum PhysicsError {
    /// A shape dimension was not strictly positive (or exceeded the world bound).
    InvalidShape,
    /// A dynamic body's mass was not strictly positive (or exceeded the world bound).
    InvalidMass,
}

} // verus!
