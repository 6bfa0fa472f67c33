//! Impulse-based resolution of a detected contact: converts a contact and
//! two bodies into a velocity update along the contact normal.

use vstd::prelude::*;
use crate::math::{
    FIXED_ONE, WORLD_MAX, min_i, clamp_i, div_trunc, div_trunc_i128, clamp_i128, mul_i128, abs_i,
    lemma_div_trunc_bound, lemma_div_trunc_zero,
};
use crate::vec2::{Vec2, in_world};
use crate::collision_primitives::{CollisionData, contact_wf};
use crate::rigidbody::{Rigidbody, Mass, body_wf};

verus! {

/// The relative velocity of `a` against `b`, projected on the fixed-point
/// contact normal `(nx, ny)`; positive when the bodies separate along it.
pub open spec fn vel_along_normal(va: Vec2, vb: Vec2, nx: int, ny: int) -> int {
    (va.x - vb.x) * nx + (va.y - vb.y) * ny
}

/// The first body's share of the impulse, as a fraction `num / den`: its
/// inverse mass over the summed inverse masses. Zero for a static body, one
/// against a static partner, `mb / (ma + mb)` between two dynamic bodies.
pub open spec fn impulse_share_a(ma: Mass, mb: Mass) -> (int, int) {
    match (ma, mb) {
        (Mass::Static, _) => (0int, 1int),
        (Mass::Dynamic(_), Mass::Static) => (1int, 1int),
        (Mass::Dynamic(x), Mass::Dynamic(y)) => (y as int, x + y),
    }
}

/// The second body's share of the impulse, as a fraction `num / den`.
pub open spec fn impulse_share_b(ma: Mass, mb: Mass) -> (int, int) {
    match (ma, mb) {
        (_, Mass::Static) => (0int, 1int),
        (Mass::Static, Mass::Dynamic(_)) => (1int, 1int),
        (Mass::Dynamic(x), Mass::Dynamic(y)) => (x as int, x + y),
    }
}

/// The post-resolution velocities of a contact pair. Separating pairs
/// (positive velocity along the normal) and pairs of two static bodies are
/// left untouched; otherwise each body gains its share of the restitution
/// impulse along the normal, evaluated as one exact product with a single
/// truncating division per component, then saturated at the world bound.
pub open spec fn resolve_velocities(nx: int, ny: int, a: Rigidbody, b: Rigidbody) -> (Vec2, Vec2) {
    let van = vel_along_normal(a.linear_velocity, b.linear_velocity, nx, ny);
    if van > 0 {
        (a.linear_velocity, b.linear_velocity)
    } else if a.mass is Static && b.mass is Static {
        (a.linear_velocity, b.linear_velocity)
    } else {
        let e = min_i(a.restitution.coeff(), b.restitution.coeff());
        let sa = impulse_share_a(a.mass, b.mass);
        let sb = impulse_share_b(a.mass, b.mass);
        let dax = div_trunc(
            -((FIXED_ONE + e) * van * nx * sa.0),
            FIXED_ONE * FIXED_ONE * FIXED_ONE * sa.1,
        );
        let day = div_trunc(
            -((FIXED_ONE + e) * van * ny * sa.0),
            FIXED_ONE * FIXED_ONE * FIXED_ONE * sa.1,
        );
        let dbx = div_trunc(
            (FIXED_ONE + e) * van * nx * sb.0,
            FIXED_ONE * FIXED_ONE * FIXED_ONE * sb.1,
        );
        let dby = div_trunc(
            (FIXED_ONE + e) * van * ny * sb.0,
            FIXED_ONE * FIXED_ONE * FIXED_ONE * sb.1,
        );
        (
            Vec2 {
                x: clamp_i(a.linear_velocity.x + dax, WORLD_MAX as int) as i64,
                y: clamp_i(a.linear_velocity.y + day, WORLD_MAX as int) as i64,
            },
            Vec2 {
                x: clamp_i(b.linear_velocity.x + dbx, WORLD_MAX as int) as i64,
                y: clamp_i(b.linear_velocity.y + dby, WORLD_MAX as int) as i64,
            },
        )
    }
}

/// A static body's velocity is never altered by resolution.
pub proof fn lemma_resolve_keeps_static(nx: int, ny: int, a: Rigidbody, b: Rigidbody)
    requires
        in_world(a.linear_velocity),
        in_world(b.linear_velocity),
    ensures
        a.mass is Static ==> resolve_velocities(nx, ny, a, b).0 == a.linear_velocity,
        b.mass is Static ==> resolve_velocities(nx, ny, a, b).1 == b.linear_velocity,
{
    let van = vel_along_normal(a.linear_velocity, b.linear_velocity, nx, ny);
    if van <= 0 && !(a.mass is Static && b.mass is Static) {
        let e = min_i(a.restitution.coeff(), b.restitution.coeff());
        if a.mass is Static {
            let sa = impulse_share_a(a.mass, b.mass);
            assert((FIXED_ONE + e) * van * nx * sa.0 == 0) by (nonlinear_arith)
                requires
                    sa.0 == 0,
            ;
            assert((FIXED_ONE + e) * van * ny * sa.0 == 0) by (nonlinear_arith)
                requires
                    sa.0 == 0,
            ;
            lemma_div_trunc_zero(FIXED_ONE * FIXED_ONE * FIXED_ONE * sa.1);
        }
        if b.mass is Static {
            let sb = impulse_share_b(a.mass, b.mass);
            assert((FIXED_ONE + e) * van * nx * sb.0 == 0) by (nonlinear_arith)
                requires
                    sb.0 == 0,
            ;
            assert((FIXED_ONE + e) * van * ny * sb.0 == 0) by (nonlinear_arith)
                requires
                    sb.0 == 0,
            ;
            lemma_div_trunc_zero(FIXED_ONE * FIXED_ONE * FIXED_ONE * sb.1);
        }
    }
}

/// Both results of a resolution lie within the world bound whenever the
/// incoming velocities do.
pub proof fn lemma_resolve_in_world(nx: int, ny: int, a: Rigidbody, b: Rigidbody)
    requires
        in_world(a.linear_velocity),
        in_world(b.linear_velocity),
    ensures
        in_world(resolve_velocities(nx, ny, a, b).0),
        in_world(resolve_velocities(nx, ny, a, b).1),
{
}

/// Resolve a detected contact between two bodies: mutates both bodies'
/// velocities and nothing else. A pair already separating along the contact
/// normal is left untouched, as is a pair of two static bodies (no finite
/// impulse is defined for them).
pub fn resolve_collision(
    collision_data: &CollisionData,
    rigidbody_1: &mut Rigidbody,
    rigidbody_2: &mut Rigidbody,
)
    requires
        body_wf(*old(rigidbody_1)),
        body_wf(*old(rigidbody_2)),
        contact_wf(*collision_data),
    ensures
        *final(rigidbody_1) == (Rigidbody {
            linear_velocity: resolve_velocities(
                collision_data.unit_normal.x as int,
                collision_data.unit_normal.y as int,
                *old(rigidbody_1),
                *old(rigidbody_2),
            ).0,
            ..*old(rigidbody_1)
        }),
        *final(rigidbody_2) == (Rigidbody {
            linear_velocity: resolve_velocities(
                collision_data.unit_normal.x as int,
                collision_data.unit_normal.y as int,
                *old(rigidbody_1),
                *old(rigidbody_2),
            ).1,
            ..*old(rigidbody_2)
        }),
        body_wf(*final(rigidbody_1)),
        body_wf(*final(rigidbody_2)),
        vel_along_normal(
            old(rigidbody_1).linear_velocity,
            old(rigidbody_2).linear_velocity,
            collision_data.unit_normal.x as int,
            collision_data.unit_normal.y as int,
        ) > 0 ==> *final(rigidbody_1) == *old(rigidbody_1) && *final(rigidbody_2) == *old(
            rigidbody_2,
        ),
        old(rigidbody_1).mass is Static ==> final(rigidbody_1).linear_velocity == old(
            rigidbody_1,
        ).linear_velocity,
        old(rigidbody_2).mass is Static ==> final(rigidbody_2).linear_velocity == old(
            rigidbody_2,
        ).linear_velocity,
{
    let nx = collision_data.unit_normal.x;
    let ny = collision_data.unit_normal.y;
    let rvx = rigidbody_1.linear_velocity.x - rigidbody_2.linear_velocity.x;
    let rvy = rigidbody_1.linear_velocity.y - rigidbody_2.linear_velocity.y;
    let van: i128 = mul_i128(rvx, nx) + mul_i128(rvy, ny);
    proof {
        assert(abs_i(rvx * nx) <= 2_000_000_000_000_000 && abs_i(rvy * ny)
            <= 2_000_000_000_000_000) by (nonlinear_arith)
            requires
                -2_000_000_000 <= rvx <= 2_000_000_000,
                -2_000_000_000 <= rvy <= 2_000_000_000,
                -1_000_000 <= nx <= 1_000_000,
                -1_000_000 <= ny <= 1_000_000,
        ;
        lemma_resolve_keeps_static(nx as int, ny as int, *rigidbody_1, *rigidbody_2);
    }
    if van > 0 {
        return ;
    }
    let qa: i64;
    let qb: i64;
    let qd: i64;
    match (rigidbody_1.mass, rigidbody_2.mass) {
        (Mass::Static, Mass::Static) => {
            return ;
        },
        (Mass::Static, Mass::Dynamic(_)) => {
            qa = 0;
            qb = 1;
            qd = 1;
        },
        (Mass::Dynamic(_), Mass::Static) => {
            qa = 1;
            qb = 0;
            qd = 1;
        },
        (Mass::Dynamic(x), Mass::Dynamic(y)) => {
            qa = y;
            qb = x;
            qd = x + y;
        },
    }
    let restitution = rigidbody_1.restitution.resolve_restitutions(&rigidbody_2.restitution);
    let f: i64 = FIXED_ONE + restitution;
    let dax = impulse_component(f, van, nx, qa, qd);
    let day = impulse_component(f, van, ny, qa, qd);
    let dbx = impulse_component(f, van, nx, qb, qd);
    let dby = impulse_component(f, van, ny, qb, qd);
    proof {
        assert(FIXED_ONE * FIXED_ONE * FIXED_ONE == 1_000_000_000_000_000_000int)
            by (nonlinear_arith)
            requires
                FIXED_ONE == 1_000_000,
        ;
        crate::math::lemma_div_trunc_neg(
            f * van * nx * qa,
            FIXED_ONE * FIXED_ONE * FIXED_ONE * qd,
        );
        crate::math::lemma_div_trunc_neg(
            f * van * ny * qa,
            FIXED_ONE * FIXED_ONE * FIXED_ONE * qd,
        );
    }
    let v1x = clamp_i128(rigidbody_1.linear_velocity.x as i128 + (-dax) as i128, WORLD_MAX);
    let v1y = clamp_i128(rigidbody_1.linear_velocity.y as i128 + (-day) as i128, WORLD_MAX);
    let v2x = clamp_i128(rigidbody_2.linear_velocity.x as i128 + dbx as i128, WORLD_MAX);
    let v2y = clamp_i128(rigidbody_2.linear_velocity.y as i128 + dby as i128, WORLD_MAX);
    rigidbody_1.linear_velocity = Vec2 { x: v1x, y: v1y };
    rigidbody_2.linear_velocity = Vec2 { x: v2x, y: v2y };
}

/// One velocity component of the scaled restitution impulse:
/// `(f * van * n * qn) / (FIXED_ONE^3 * qd)`, truncated once.
fn impulse_component(f: i64, van: i128, n: i64, qn: i64, qd: i64) -> (d: i64)
    requires
        0 <= f <= 2_000_000,
        -4_000_000_000_000_000 <= van <= 4_000_000_000_000_000,
        -1_000_000 <= n <= 1_000_000,
        0 <= qn <= qd,
        1 <= qd <= 2_000_000_000,
    ensures
        d == div_trunc(f * van * n * qn, FIXED_ONE * FIXED_ONE * FIXED_ONE * qd),
        -8_000_000_000 <= d <= 8_000_000_000,
{
    proof {
        assert(abs_i(f * van) <= 8_000_000_000_000_000_000_000) by (nonlinear_arith)
            requires
                0 <= f <= 2_000_000,
                -4_000_000_000_000_000 <= van <= 4_000_000_000_000_000,
        ;
        assert(abs_i(f * van * n) <= 8_000_000_000_000_000_000_000_000_000) by (nonlinear_arith)
            requires
                abs_i(f * van) <= 8_000_000_000_000_000_000_000,
                -1_000_000 <= n <= 1_000_000,
        ;
        assert(abs_i(f * van * n * qn) <= 8_000_000_000 * (1_000_000_000_000_000_000 * qd))
            by (nonlinear_arith)
            requires
                abs_i(f * van * n) <= 8_000_000_000_000_000_000_000_000_000,
                0 <= qn <= qd,
        ;
        assert(FIXED_ONE * FIXED_ONE * FIXED_ONE == 1_000_000_000_000_000_000int)
            by (nonlinear_arith)
            requires
                FIXED_ONE == 1_000_000,
        ;
        lemma_div_trunc_bound(
            f * van * n * qn,
            1_000_000_000_000_000_000int * qd,
            8_000_000_000int,
        );
    }
    let t1: i128 = (f as i128) * van;
    let t2: i128 = t1 * (n as i128);
    let t3: i128 = t2 * (qn as i128);
    let den: i128 = 1_000_000_000_000_000_000i128 * (qd as i128);
    let q = div_trunc_i128(t3, den);
    q as i64
}

} // verus!
