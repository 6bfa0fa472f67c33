//! The per-tick orchestrator: integrate every body, then enumerate every
//! unordered pair once and resolve each detected contact immediately.
//!
//! Pairs are resolved sequentially, not simultaneously: resolving one pair
//! mutates velocities that later pairs in the same tick read. That policy is
//! part of the contract, stated by the recursive `sweep` model.

use vstd::prelude::*;
use crate::math::FIXED_ONE;
use crate::vec2::{Pose, pose_wf};
use crate::collision_primitives::{
    CollisionData, CircleCollider, AABB, Primitives, circle_wf, aabb_wf, shape_wf, contact_wf,
    contact_matches, detect, detect_model,
};
use crate::rigidbody::{Rigidbody, body_wf, integrate, integrate_model};
use crate::resolve::{
    resolve_velocities, resolve_collision, lemma_resolve_keeps_static, lemma_resolve_in_world,
};

verus! {

/// Narrow-phase dispatch for a circle against whatever shape the other body
/// carries.
pub fn check_circle_collision(
    circle: &CircleCollider,
    circle_trans: &Pose,
    other: &Rigidbody,
    other_trans: &Pose,
) -> (r: Option<CollisionData>)
    requires
        circle_wf(*circle),
        shape_wf(other.shape),
        pose_wf(*circle_trans),
        pose_wf(*other_trans),
    ensures
        contact_matches(
            r,
            detect_model(Primitives::Circle(*circle), *circle_trans, other.shape, *other_trans),
        ),
        r matches Some(c) ==> contact_wf(c),
{
    match &other.shape {
        Primitives::Circle(c2) => circle.is_colliding_with_circle(circle_trans, c2, other_trans),
        Primitives::AABB(c2) => circle.is_colliding_with_AABB(circle_trans, c2, other_trans),
    }
}

/// Narrow-phase dispatch for a box against whatever shape the other body
/// carries.
pub fn check_AABB_collision(
    aabb: &AABB,
    aabb_trans: &Pose,
    other: &Rigidbody,
    other_trans: &Pose,
) -> (r: Option<CollisionData>)
    requires
        aabb_wf(*aabb),
        shape_wf(other.shape),
        pose_wf(*aabb_trans),
        pose_wf(*other_trans),
    ensures
        contact_matches(
            r,
            detect_model(Primitives::AABB(*aabb), *aabb_trans, other.shape, *other_trans),
        ),
        r matches Some(c) ==> contact_wf(c),
{
    match &other.shape {
        Primitives::AABB(c2) => aabb.is_colliding_with_AABB(aabb_trans, c2, other_trans),
        Primitives::Circle(c2) => aabb.is_colliding_with_circle(aabb_trans, c2, other_trans),
    }
}

/// Every body is well-formed and every pose lies in the world.
pub open spec fn world_wf(s: Seq<(Rigidbody, Pose)>) -> bool {
    forall|k: int|
        0 <= k < s.len() ==> body_wf((#[trigger] s[k]).0) && pose_wf(s[k].1)
}

/// Runtime test for `world_wf`: lets an unverified host check a whole body
/// collection before handing it to `step`.
pub fn world_in_bounds(bodies: &Vec<(Rigidbody, Pose)>) -> (ok: bool)
    ensures
        ok == world_wf(bodies@),
{
    let n = bodies.len();
    let mut k: usize = 0;
    while k < n
        invariant
            n == bodies@.len(),
            k <= n,
            forall|m: int|
                0 <= m < k ==> body_wf((#[trigger] bodies@[m]).0) && pose_wf(bodies@[m].1),
        decreases n - k,
    {
        let (b, p) = &bodies[k];
        if !crate::rigidbody::body_in_bounds(b) || !crate::vec2::vec_in_world(&p.position) {
            return false;
        }
        k += 1;
    }
    true
}

/// The integrate phase: every body advanced by one timestep, independently.
pub open spec fn integrate_all(s: Seq<(Rigidbody, Pose)>, dt: int) -> Seq<(Rigidbody, Pose)> {
    Seq::new(s.len(), |k: int| integrate_model(s[k].0, s[k].1, dt))
}

/// Detect-and-resolve of the single ordered pair `(i, j)`: if the narrow
/// phase reports a contact, both bodies' velocities are replaced by the
/// resolved pair; otherwise the state is unchanged.
pub open spec fn pair_step(s: Seq<(Rigidbody, Pose)>, i: int, j: int) -> Seq<(Rigidbody, Pose)>
    recommends
        0 <= i < s.len(),
        0 <= j < s.len(),
        i != j,
{
    match detect_model(s[i].0.shape, s[i].1, s[j].0.shape, s[j].1) {
        Option::Some(t) => {
            let vs = resolve_velocities(t.0, t.1, s[i].0, s[j].0);
            let a2 = Rigidbody { linear_velocity: vs.0, ..s[i].0 };
            let b2 = Rigidbody { linear_velocity: vs.1, ..s[j].0 };
            s.update(i, (a2, s[i].1)).update(j, (b2, s[j].1))
        },
        Option::None => s,
    }
}

/// The detect-and-resolve phase from pair `(i, j)` on: every unordered pair
/// exactly once, in index order, each applied to the state the previous
/// pairs produced.
pub open spec fn sweep(s: Seq<(Rigidbody, Pose)>, i: int, j: int) -> Seq<(Rigidbody, Pose)>
    decreases s.len() - i, s.len() + 1 - j,
{
    if i < 0 || j <= i {
        s
    } else if i >= s.len() {
        s
    } else if j >= s.len() {
        sweep(s, i + 1, i + 2)
    } else {
        sweep(pair_step(s, i, j), i, j + 1)
    }
}

/// One full tick: integrate every body, then sweep every unordered pair.
pub open spec fn step_model(s: Seq<(Rigidbody, Pose)>, dt: int) -> Seq<(Rigidbody, Pose)> {
    sweep(integrate_all(s, dt), 0, 1)
}

/// `n` consecutive ticks at the same timestep.
pub open spec fn run_ticks(s: Seq<(Rigidbody, Pose)>, dt: int, n: nat) -> Seq<(Rigidbody, Pose)>
    decreases n,
{
    if n == 0 {
        s
    } else {
        run_ticks(step_model(s, dt), dt, (n - 1) as nat)
    }
}

/// Run one fixed-timestep tick over the whole body collection, in place:
/// integrate every body, then visit every unordered pair once in index
/// order, resolving each detected contact immediately.
pub fn step(bodies: &mut Vec<(Rigidbody, Pose)>, dt: i64)
    requires
        world_wf(old(bodies)@),
        0 <= dt <= FIXED_ONE,
    ensures
        final(bodies)@ == step_model(old(bodies)@, dt as int),
        world_wf(final(bodies)@),
        final(bodies)@.len() == old(bodies)@.len(),
{
    let ghost s0 = bodies@;
    let n = bodies.len();
    let mut idx: usize = 0;
    while idx < n
        invariant
            bodies@.len() == n,
            n == s0.len(),
            idx <= n,
            world_wf(s0),
            world_wf(bodies@),
            0 <= dt <= FIXED_ONE,
            forall|k: int| 0 <= k < idx ==> #[trigger] bodies@[k] == integrate_model(
                s0[k].0,
                s0[k].1,
                dt as int,
            ),
            forall|k: int| idx <= k < n ==> #[trigger] bodies@[k] == s0[k],
        decreases n - idx,
    {
        let (mut b, mut p) = bodies[idx];
        integrate(&mut b, &mut p, dt);
        bodies[idx] = (b, p);
        idx += 1;
    }
    proof {
        assert(bodies@ =~= integrate_all(s0, dt as int));
    }
    let ghost si = integrate_all(s0, dt as int);
    let mut i: usize = 0;
    while i < n
        invariant
            bodies@.len() == n,
            n == si.len(),
            i <= n,
            world_wf(bodies@),
            sweep(bodies@, i as int, i as int + 1) == sweep(si, 0, 1),
        decreases n - i,
    {
        let mut j: usize = i + 1;
        while j < n
            invariant
                bodies@.len() == n,
                n == si.len(),
                i < n,
                i + 1 <= j <= n,
                world_wf(bodies@),
                sweep(bodies@, i as int, j as int) == sweep(si, 0, 1),
            decreases n - j,
        {
            let ghost pre = bodies@;
            let (b1, p1) = bodies[i];
            let (b2, p2) = bodies[j];
            let contact = match &b1.shape {
                Primitives::Circle(c1) => check_circle_collision(c1, &p1, &b2, &p2),
                Primitives::AABB(c1) => check_AABB_collision(c1, &p1, &b2, &p2),
            };
            match contact {
                Some(collision_data) => {
                    let mut body_a = b1;
                    let mut body_b = b2;
                    resolve_collision(&collision_data, &mut body_a, &mut body_b);
                    bodies[i] = (body_a, p1);
                    bodies[j] = (body_b, p2);
                },
                None => {
                },
            }
            proof {
                assert(bodies@ == pair_step(pre, i as int, j as int));
                assert(sweep(pre, i as int, j as int) == sweep(
                    pair_step(pre, i as int, j as int),
                    i as int,
                    j as int + 1,
                ));
                assert forall|k: int| 0 <= k < n implies body_wf(
                    (#[trigger] bodies@[k]).0,
                ) && pose_wf(bodies@[k].1) by {
                    assert(body_wf(pre[k].0) && pose_wf(pre[k].1));
                }
            }
            j += 1;
        }
        proof {
            assert(sweep(bodies@, i as int, n as int) == sweep(
                bodies@,
                i as int + 1,
                i as int + 2,
            ));
        }
        i += 1;
    }
    proof {
        assert(sweep(bodies@, n as int, n as int + 1) == bodies@);
    }
}

/// The integrate phase keeps the world well-formed, preserves each body's
/// mass, and leaves static bodies (and their poses) untouched.
pub proof fn lemma_integrate_all_wf(s: Seq<(Rigidbody, Pose)>, dt: int)
    requires
        world_wf(s),
        0 <= dt <= FIXED_ONE,
    ensures
        integrate_all(s, dt).len() == s.len(),
        world_wf(integrate_all(s, dt)),
        forall|k: int|
            0 <= k < s.len() ==> (#[trigger] integrate_all(s, dt)[k]).0.mass == s[k].0.mass,
        forall|k: int|
            0 <= k < s.len() && s[k].0.mass is Static ==> (#[trigger] integrate_all(s, dt)[k])
                == s[k],
{
    assert forall|k: int| 0 <= k < s.len() implies body_wf(
        (#[trigger] integrate_all(s, dt)[k]).0,
    ) && pose_wf(integrate_all(s, dt)[k].1) && integrate_all(s, dt)[k].0.mass == s[k].0.mass && (
    s[k].0.mass is Static ==> integrate_all(s, dt)[k] == s[k]) by {
        crate::rigidbody::lemma_integrate_model_wf(s[k].0, s[k].1, dt);
    }
}

/// One pair resolution keeps the world well-formed, never moves a pose,
/// preserves each body's mass, shape and restitution, and leaves static
/// bodies untouched.
pub proof fn lemma_pair_step_wf(s: Seq<(Rigidbody, Pose)>, i: int, j: int)
    requires
        world_wf(s),
        0 <= i < s.len(),
        0 <= j < s.len(),
        i != j,
    ensures
        pair_step(s, i, j).len() == s.len(),
        world_wf(pair_step(s, i, j)),
        forall|k: int| 0 <= k < s.len() ==> (#[trigger] pair_step(s, i, j)[k]).1 == s[k].1,
        forall|k: int|
            0 <= k < s.len() ==> (#[trigger] pair_step(s, i, j)[k]).0.mass == s[k].0.mass,
        forall|k: int|
            0 <= k < s.len() && s[k].0.mass is Static ==> (#[trigger] pair_step(s, i, j)[k]).0
                == s[k].0,
{
    match detect_model(s[i].0.shape, s[i].1, s[j].0.shape, s[j].1) {
        Option::Some(t) => {
            lemma_resolve_in_world(t.0, t.1, s[i].0, s[j].0);
            lemma_resolve_keeps_static(t.0, t.1, s[i].0, s[j].0);
        },
        Option::None => {
        },
    }
}

/// The whole pair sweep keeps the world well-formed, never moves a pose,
/// preserves each body's mass, and leaves static bodies untouched.
pub proof fn lemma_sweep_preserves(s: Seq<(Rigidbody, Pose)>, i: int, j: int)
    requires
        world_wf(s),
    ensures
        sweep(s, i, j).len() == s.len(),
        world_wf(sweep(s, i, j)),
        forall|k: int| 0 <= k < s.len() ==> (#[trigger] sweep(s, i, j)[k]).1 == s[k].1,
        forall|k: int| 0 <= k < s.len() ==> (#[trigger] sweep(s, i, j)[k]).0.mass == s[k].0.mass,
        forall|k: int|
            0 <= k < s.len() && s[k].0.mass is Static ==> (#[trigger] sweep(s, i, j)[k]).0
                == s[k].0,
    decreases s.len() - i, s.len() + 1 - j,
{
    if i < 0 || j <= i {
    } else if i >= s.len() {
    } else if j >= s.len() {
        lemma_sweep_preserves(s, i + 1, i + 2);
    } else {
        lemma_pair_step_wf(s, i, j);
        lemma_sweep_preserves(pair_step(s, i, j), i, j + 1);
    }
}

/// One full tick keeps the world well-formed, preserves its length and each
/// body's mass, and leaves static bodies (velocity and position) untouched.
pub proof fn lemma_step_model_preserves(s: Seq<(Rigidbody, Pose)>, dt: int)
    requires
        world_wf(s),
        0 <= dt <= FIXED_ONE,
    ensures
        step_model(s, dt).len() == s.len(),
        world_wf(step_model(s, dt)),
        forall|k: int|
            0 <= k < s.len() ==> (#[trigger] step_model(s, dt)[k]).0.mass == s[k].0.mass,
        forall|k: int|
            0 <= k < s.len() && s[k].0.mass is Static ==> (#[trigger] step_model(s, dt)[k])
                == s[k],
{
    lemma_integrate_all_wf(s, dt);
    lemma_sweep_preserves(integrate_all(s, dt), 0, 1);
}

/// Static immutability: a static body's velocity and position are unchanged
/// after any number of ticks, whatever forces act on it and whatever
/// collisions hit it.
pub proof fn lemma_static_body_unchanged(s: Seq<(Rigidbody, Pose)>, dt: int, n: nat, k: int)
    requires
        world_wf(s),
        0 <= dt <= FIXED_ONE,
        0 <= k < s.len(),
        s[k].0.mass is Static,
    ensures
        run_ticks(s, dt, n).len() == s.len(),
        run_ticks(s, dt, n)[k].0.linear_velocity == s[k].0.linear_velocity,
        run_ticks(s, dt, n)[k].1.position == s[k].1.position,
        run_ticks(s, dt, n)[k] == s[k],
    decreases n,
{
    if n > 0 {
        lemma_step_model_preserves(s, dt);
        lemma_static_body_unchanged(step_model(s, dt), dt, (n - 1) as nat, k);
    }
}

} // verus!
