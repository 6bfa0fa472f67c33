//! Plane vectors with integer components, and the externally owned pose.

use vstd::prelude::*;
use crate::math::WORLD_MAX;

verus! {

/// A two-dimensional vector of whole world units.
#[derive(Clone, Copy, Debug, PartialEq, Eq, Structural)]
pub struct Vec2 {
    pub x: i64,
    pub y: i64,
}

/// World placement of a body, owned by the host: a position the core reads
/// and writes, and an orientation it only carries along.
#[derive(Clone, Copy, Debug, PartialEq, Eq, Structural)]
pub struct Pose {
    pub position: Vec2,
    pub orientation: i64,
}

impl Vec2 {
    /// The vector `(x, y)`.
    pub fn new(x: i64, y: i64) -> (v: Vec2)
        ensures
            v.x == x,
            v.y == y,
    {
        Vec2 { x, y }
    }

    /// The zero vector.
    pub fn zero() -> (v: Vec2)
        ensures
            v == (Vec2 { x: 0, y: 0 }),
    {
        Vec2 { x: 0, y: 0 }
    }
}

/// Both components lie within the world bound.
pub open spec fn in_world(v: Vec2) -> bool {
    -WORLD_MAX <= v.x <= WORLD_MAX && -WORLD_MAX <= v.y <= WORLD_MAX
}

/// Runtime test for `in_world`.
pub fn vec_in_world(v: &Vec2) -> (ok: bool)
    ensures
        ok == in_world(*v),
{
    -WORLD_MAX <= v.x && v.x <= WORLD_MAX && -WORLD_MAX <= v.y && v.y <= WORLD_MAX
}

/// A pose whose position the core can safely do geometry on.
pub open spec fn pose_wf(p: Pose) -> bool {
    in_world(p.position)
}

/// Dot product, as unbounded integers.
pub open spec fn dot_s(ax: int, ay: int, bx: int, by: int) -> int {
    ax * bx + ay * by
}

} // verus!
