//! Rigid-body state and its fixed-timestep kinematic integration.

use vstd::prelude::*;
use crate::PhysicsError;
use crate::math::{
    FIXED_ONE, WORLD_MAX, min_i, clamp_i, div_trunc, div_trunc_i128, clamp_i128, abs_i,
    lemma_div_trunc_bound,
};
use crate::vec2::{Vec2, Pose, in_world, pose_wf};
use crate::collision_primitives::{Primitives, shape_wf};

verus! {

/// Mass category of a body: a strictly positive dynamic mass, or static.
/// Static bodies have inverse mass zero and are immune to force, impulse and
/// integration.
#[derive(Clone, Copy, Debug, PartialEq, Eq, Structural)]
pub enum Mass {
    Static,
    Dynamic(i64),
}

/// Restitution coefficient, a fixed-point scalar clamped into
/// `[0, FIXED_ONE]` at construction and never mutated afterward.
#[derive(Clone, Copy, Debug)]
pub struct Restitution {
    r: i64,
}

/// The clamp applied to a restitution value at construction.
pub open spec fn restitution_clamped(r: int) -> int {
    if r > FIXED_ONE {
        FIXED_ONE as int
    } else if r < 0 {
        0int
    } else {
        r
    }
}

/// A restitution coefficient within its interval.
pub open spec fn restitution_wf(res: Restitution) -> bool {
    0 <= res.coeff() <= FIXED_ONE
}

impl Restitution {
    /// The stored coefficient, in fixed-point units of `FIXED_ONE`.
    pub closed spec fn coeff(self) -> int {
        self.r as int
    }

    /// A coefficient, silently clamped into `[0, FIXED_ONE]`.
    pub fn new(r: i64) -> (res: Restitution)
        ensures
            res.coeff() == restitution_clamped(r as int),
            restitution_wf(res),
    {
        if r > FIXED_ONE {
            Restitution { r: FIXED_ONE }
        } else if r < 0 {
            Restitution { r: 0 }
        } else {
            Restitution { r }
        }
    }

    /// The combined restitution of a contact: the more inelastic body
    /// dominates, so the smaller coefficient wins.
    pub fn resolve_restitutions(&self, other: &Restitution) -> (c: i64)
        ensures
            c == min_i(self.coeff(), other.coeff()),
    {
        if self.r <= other.r {
            self.r
        } else {
            other.r
        }
    }

    /// The coefficient as a plain scalar.
    pub fn value(&self) -> (c: i64)
        ensures
            c == self.coeff(),
    {
        self.r
    }
}

impl Default for Restitution {
    /// Fully elastic.
    fn default() -> (res: Self)
        ensures
            res.coeff() == FIXED_ONE,
            restitution_wf(res),
    {
        Restitution { r: FIXED_ONE }
    }
}

/// Rigid-body state. The body's world position lives in an externally owned
/// `Pose`; angular velocity, torque and the moment of inertia are carried as
/// state but never consumed by resolution.
#[derive(Clone, Copy, Debug)]
pub struct Rigidbody {
    pub shape: Primitives,
    pub linear_velocity: Vec2,
    pub force: Vec2,
    pub angular_velocity: i64,
    pub torque: i64,
    pub restitution: Restitution,
    pub mass: Mass,
    pub moment: i64,
}

/// A dynamic mass is strictly positive and within the world bound.
pub open spec fn mass_wf(m: Mass) -> bool {
    match m {
        Mass::Static => true,
        Mass::Dynamic(v) => 1 <= v <= WORLD_MAX,
    }
}

/// A body the integrator and resolver can work on. A static body's velocity
/// is identically zero.
pub open spec fn body_wf(b: Rigidbody) -> bool {
    &&& shape_wf(b.shape)
    &&& in_world(b.linear_velocity)
    &&& in_world(b.force)
    &&& restitution_wf(b.restitution)
    &&& mass_wf(b.mass)
    &&& b.mass is Static ==> b.linear_velocity == (Vec2 { x: 0, y: 0 })
}

/// Runtime test for `body_wf`: lets an unverified host check a body before
/// handing it to the integrator, resolver or orchestrator.
pub fn body_in_bounds(b: &Rigidbody) -> (ok: bool)
    ensures
        ok == body_wf(*b),
{
    let shape_ok = crate::collision_primitives::shape_in_bounds(&b.shape);
    let vel_ok = crate::vec2::vec_in_world(&b.linear_velocity);
    let force_ok = crate::vec2::vec_in_world(&b.force);
    let rest = b.restitution.value();
    let rest_ok = 0 <= rest && rest <= FIXED_ONE;
    let mass_ok = match b.mass {
        Mass::Static => b.linear_velocity.x == 0 && b.linear_velocity.y == 0,
        Mass::Dynamic(v) => 1 <= v && v <= WORLD_MAX,
    };
    shape_ok && vel_ok && force_ok && rest_ok && mass_ok
}

/// Half of `mass * radius^2`, the reference moment of inertia of a disc,
/// saturated at the representable maximum.
pub open spec fn moment_spec(mass: int, radius: int) -> int {
    min_i((mass * radius * radius) / 2, i64::MAX as int)
}

impl Rigidbody {
    /// An immovable body: zero velocity, immune to force and impulse.
    pub fn new_static_shape(primitive: Primitives, restitution: i64) -> (b: Rigidbody)
        requires
            shape_wf(primitive),
        ensures
            b.shape == primitive,
            b.linear_velocity == (Vec2 { x: 0, y: 0 }),
            b.force == (Vec2 { x: 0, y: 0 }),
            b.angular_velocity == 0,
            b.torque == 0,
            b.restitution.coeff() == restitution_clamped(restitution as int),
            b.mass is Static,
            b.moment == 0,
            body_wf(b),
    {
        Rigidbody {
            shape: primitive,
            linear_velocity: Vec2 { x: 0, y: 0 },
            force: Vec2 { x: 0, y: 0 },
            angular_velocity: 0,
            torque: 0,
            restitution: Restitution::new(restitution),
            mass: Mass::Static,
            moment: 0,
        }
    }

    /// A dynamic body of the given mass and initial velocity. A mass that is
    /// not strictly positive is rejected; the radius only feeds the reference
    /// moment of inertia.
    pub fn new_shape_with_velocity(
        mass: i64,
        radius: i64,
        primitive: Primitives,
        velocity: Vec2,
        restitution: i64,
    ) -> (r: Result<Rigidbody, PhysicsError>)
        requires
            shape_wf(primitive),
            in_world(velocity),
            0 <= radius <= WORLD_MAX,
            mass <= WORLD_MAX,
        ensures
            1 <= mass <==> r is Ok,
            mass < 1 ==> r == Result::<Rigidbody, PhysicsError>::Err(PhysicsError::InvalidMass),
            r matches Ok(b) ==> {
                &&& b.shape == primitive
                &&& b.linear_velocity == velocity
                &&& b.force == (Vec2 { x: 0, y: 0 })
                &&& b.angular_velocity == 0
                &&& b.torque == 0
                &&& b.restitution.coeff() == restitution_clamped(restitution as int)
                &&& b.mass == Mass::Dynamic(mass)
                &&& b.moment == moment_spec(mass as int, radius as int)
                &&& body_wf(b)
            },
    {
        if mass < 1 {
            return Err(PhysicsError::InvalidMass);
        }
        proof {
            assert(0 <= mass * radius <= 1_000_000_000_000_000_000) by (nonlinear_arith)
                requires
                    1 <= mass <= 1_000_000_000,
                    0 <= radius <= 1_000_000_000,
            ;
            assert(0 <= mass * radius * radius
                <= 1_000_000_000_000_000_000_000_000_000) by (nonlinear_arith)
                requires
                    1 <= mass <= 1_000_000_000,
                    0 <= radius <= 1_000_000_000,
            ;
        }
        let mr2: i128 = (mass as i128) * (radius as i128) * (radius as i128);
        let half: i128 = ((mr2 as u128) / 2) as i128;
        let moment: i64 = if half > i64::MAX as i128 {
            i64::MAX
        } else {
            half as i64
        };
        Ok(
            Rigidbody {
                shape: primitive,
                linear_velocity: velocity,
                force: Vec2 { x: 0, y: 0 },
                angular_velocity: 0,
                torque: 0,
                restitution: Restitution::new(restitution),
                mass: Mass::Dynamic(mass),
                moment,
            },
        )
    }
}

/// One fixed timestep of kinematics for one body: a static body is left
/// untouched; a dynamic one gains its per-tick force-over-mass increment on
/// the velocity, then moves by velocity times `dt`. Results saturate at the
/// world bound.
pub open spec fn integrate_model(b: Rigidbody, p: Pose, dt: int) -> (Rigidbody, Pose) {
    match b.mass {
        Mass::Static => (b, p),
        Mass::Dynamic(m) => {
            let vx = clamp_i(
                b.linear_velocity.x + div_trunc(b.force.x as int, m as int),
                WORLD_MAX as int,
            );
            let vy = clamp_i(
                b.linear_velocity.y + div_trunc(b.force.y as int, m as int),
                WORLD_MAX as int,
            );
            let px = clamp_i(p.position.x + div_trunc(vx * dt, FIXED_ONE as int), WORLD_MAX as int);
            let py = clamp_i(p.position.y + div_trunc(vy * dt, FIXED_ONE as int), WORLD_MAX as int);
            (
                Rigidbody { linear_velocity: Vec2 { x: vx as i64, y: vy as i64 }, ..b },
                Pose { position: Vec2 { x: px as i64, y: py as i64 }, ..p },
            )
        },
    }
}

/// Integration keeps a body and its pose well-formed, never touches a
/// static body, and changes nothing but velocity and position.
pub proof fn lemma_integrate_model_wf(b: Rigidbody, p: Pose, dt: int)
    requires
        body_wf(b),
        pose_wf(p),
        0 <= dt <= FIXED_ONE,
    ensures
        body_wf(integrate_model(b, p, dt).0),
        pose_wf(integrate_model(b, p, dt).1),
        integrate_model(b, p, dt).0.mass == b.mass,
        integrate_model(b, p, dt).0.shape == b.shape,
        integrate_model(b, p, dt).0.restitution == b.restitution,
        b.mass is Static ==> integrate_model(b, p, dt) == (b, p),
{
}

/// Advance one body by one fixed timestep `dt` (fixed-point seconds).
/// Static bodies are untouched; dynamic bodies integrate force into velocity
/// and velocity into position.
pub fn integrate(body: &mut Rigidbody, pose: &mut Pose, dt: i64)
    requires
        body_wf(*old(body)),
        pose_wf(*old(pose)),
        0 <= dt <= FIXED_ONE,
    ensures
        (*final(body), *final(pose)) == integrate_model(*old(body), *old(pose), dt as int),
        body_wf(*final(body)),
        pose_wf(*final(pose)),
        old(body).mass is Static ==> *final(body) == *old(body) && *final(pose) == *old(pose),
{
    match body.mass {
        Mass::Static => {
        },
        Mass::Dynamic(m) => {
            proof {
                assert(abs_i(body.force.x as int) <= WORLD_MAX * m && abs_i(body.force.y as int)
                    <= WORLD_MAX * m) by (nonlinear_arith)
                    requires
                        -WORLD_MAX <= body.force.x <= WORLD_MAX,
                        -WORLD_MAX <= body.force.y <= WORLD_MAX,
                        m >= 1,
                        WORLD_MAX == 1_000_000_000,
                ;
                lemma_div_trunc_bound(body.force.x as int, m as int, WORLD_MAX as int);
                lemma_div_trunc_bound(body.force.y as int, m as int, WORLD_MAX as int);
            }
            let ax = div_trunc_i128(body.force.x as i128, m as i128);
            let ay = div_trunc_i128(body.force.y as i128, m as i128);
            let vx = clamp_i128(body.linear_velocity.x as i128 + ax, WORLD_MAX);
            let vy = clamp_i128(body.linear_velocity.y as i128 + ay, WORLD_MAX);
            body.linear_velocity = Vec2 { x: vx, y: vy };
            proof {
                assert(abs_i(vx as int * dt) <= WORLD_MAX * FIXED_ONE && abs_i(vy as int * dt)
                    <= WORLD_MAX * FIXED_ONE) by (nonlinear_arith)
                    requires
                        -WORLD_MAX <= vx <= WORLD_MAX,
                        -WORLD_MAX <= vy <= WORLD_MAX,
                        0 <= dt <= FIXED_ONE,
                        WORLD_MAX == 1_000_000_000,
                        FIXED_ONE == 1_000_000,
                ;
                lemma_div_trunc_bound(vx as int * dt, FIXED_ONE as int, WORLD_MAX as int);
                lemma_div_trunc_bound(vy as int * dt, FIXED_ONE as int, WORLD_MAX as int);
            }
            let sx = div_trunc_i128((vx as i128) * (dt as i128), FIXED_ONE as i128);
            let sy = div_trunc_i128((vy as i128) * (dt as i128), FIXED_ONE as i128);
            let px = clamp_i128(pose.position.x as i128 + sx, WORLD_MAX);
            let py = clamp_i128(pose.position.y as i128 + sy, WORLD_MAX);
            pose.position = Vec2 { x: px, y: py };
        },
    }
}

} // verus!
