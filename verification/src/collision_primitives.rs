//! Shapes and the narrow-phase detector: pairwise intersection tests over
//! every shape-variant combination, producing an optional contact.
//!
//! Contact normals are fixed-point vectors of magnitude close to `FIXED_ONE`,
//! pointing from the second body of a test toward the first. Each test is
//! specified exactly by an integer model function; the detection condition
//! itself (when a contact exists at all) is stated over squared distances and
//! per-axis overlaps, which the integer arithmetic decides exactly.

use vstd::prelude::*;
use crate::PhysicsError;
use crate::math::{
    FIXED_ONE, WORLD_MAX, abs_i, min_i, max_i, div_trunc, sqrt_floor, isqrt_u64,
    div_trunc_i128, sq_i128, mul_i128, lemma_sqrt_floor_bounds, lemma_div_trunc_bound,
};
use crate::vec2::{Vec2, Pose, pose_wf, dot_s};

verus! {

/// The geometric outcome of a positive narrow-phase test: a fixed-point unit
/// normal (scaled by `FIXED_ONE`) and a non-negative penetration depth in
/// world units.
#[derive(Clone, Copy, Debug, PartialEq, Eq, Structural)]
pub struct CollisionData {
    pub unit_normal: Vec2,
    pub penetration_depth: i64,
}

/// A circle of strictly positive radius, placed by an external pose.
#[derive(Clone, Copy, Debug, PartialEq, Eq, Structural)]
pub struct CircleCollider {
    pub radius: i64,
}

/// An axis-aligned box of strictly positive half-extents, placed by an
/// external pose at its centre.
#[derive(Clone, Copy, Debug, PartialEq, Eq, Structural)]
pub struct AABB {
    pub half_extents: Vec2,
}

/// The closed set of shape variants.
#[derive(Clone, Copy, Debug, PartialEq, Eq, Structural)]
pub enum Primitives {
    Circle(CircleCollider),
    AABB(AABB),
}

/// A circle the detector can work on.
pub open spec fn circle_wf(c: CircleCollider) -> bool {
    1 <= c.radius <= WORLD_MAX
}

/// A box the detector can work on.
pub open spec fn aabb_wf(b: AABB) -> bool {
    &&& 1 <= b.half_extents.x <= WORLD_MAX
    &&& 1 <= b.half_extents.y <= WORLD_MAX
}

/// A shape the detector can work on.
pub open spec fn shape_wf(p: Primitives) -> bool {
    match p {
        Primitives::Circle(c) => circle_wf(c),
        Primitives::AABB(b) => aabb_wf(b),
    }
}

/// Runtime test for `shape_wf`.
pub fn shape_in_bounds(p: &Primitives) -> (ok: bool)
    ensures
        ok == shape_wf(*p),
{
    match p {
        Primitives::Circle(c) => 1 <= c.radius && c.radius <= WORLD_MAX,
        Primitives::AABB(b) => 1 <= b.half_extents.x && b.half_extents.x <= WORLD_MAX && 1
            <= b.half_extents.y && b.half_extents.y <= WORLD_MAX,
    }
}

/// Normal components stay within one fixed-point unit and the depth is
/// non-negative.
pub open spec fn contact_wf(c: CollisionData) -> bool {
    &&& -FIXED_ONE <= c.unit_normal.x <= FIXED_ONE
    &&& -FIXED_ONE <= c.unit_normal.y <= FIXED_ONE
    &&& 0 <= c.penetration_depth
}

/// An executable contact agrees with a model `(normal x, normal y, depth)`.
pub open spec fn contact_matches(r: Option<CollisionData>, m: Option<(int, int, int)>) -> bool {
    match (r, m) {
        (Option::Some(c), Option::Some(t)) => {
            &&& c.unit_normal.x == t.0
            &&& c.unit_normal.y == t.1
            &&& c.penetration_depth == t.2
        },
        (Option::None, Option::None) => true,
        _ => false,
    }
}

/// The fixed-point unit vector along `(dx, dy)`: each component is scaled by
/// `FIXED_ONE` and divided (truncating) by the integer length. The zero
/// vector, which has no direction, is sent to the fixed unit vector `(1, 0)`.
pub open spec fn unit_along(dx: int, dy: int) -> (int, int) {
    if dx == 0 && dy == 0 {
        (FIXED_ONE as int, 0int)
    } else {
        let l = sqrt_floor((dx * dx + dy * dy) as nat) as int;
        (div_trunc(dx * FIXED_ONE, l), div_trunc(dy * FIXED_ONE, l))
    }
}

/// Circle versus circle, centres `pa` and `pb`: colliding exactly when the
/// squared centre distance is below the squared radius sum; the normal points
/// from `pb` toward `pa` and the depth is the radius sum minus the integer
/// centre distance.
pub open spec fn circle_circle_model(pa: Vec2, ra: int, pb: Vec2, rb: int) -> Option<
    (int, int, int),
> {
    let dx = pa.x - pb.x;
    let dy = pa.y - pb.y;
    let d2 = dx * dx + dy * dy;
    let rsum = ra + rb;
    if d2 < rsum * rsum {
        let dist = sqrt_floor(d2 as nat) as int;
        let n = unit_along(dx, dy);
        Option::Some((n.0, n.1, rsum - dist))
    } else {
        Option::None
    }
}

/// Squared distance between points `(ax, ay)` and `(bx, by)`.
pub open spec fn sq_dist(ax: int, ay: int, bx: int, by: int) -> int {
    (ax - bx) * (ax - bx) + (ay - by) * (ay - by)
}

/// Index of the first vertex attaining the least of the four squared
/// distances, scanning in traversal order.
pub open spec fn closest_idx(d0: int, d1: int, d2: int, d3: int) -> int {
    let i1 = if d1 < d0 {
        1int
    } else {
        0int
    };
    let m1 = if d1 < d0 {
        d1
    } else {
        d0
    };
    let i2 = if d2 < m1 {
        2int
    } else {
        i1
    };
    let m2 = if d2 < m1 {
        d2
    } else {
        m1
    };
    if d3 < m2 {
        3int
    } else {
        i2
    }
}

/// The box corners in a fixed traversal order: upper-right, lower-right,
/// lower-left, upper-left.
pub open spec fn box_vertex(k: int, minx: int, miny: int, maxx: int, maxy: int) -> (int, int) {
    if k == 0 {
        (maxx, maxy)
    } else if k == 1 {
        (maxx, miny)
    } else if k == 2 {
        (minx, miny)
    } else {
        (minx, maxy)
    }
}

/// The vertex one step behind `k` in traversal order.
pub open spec fn prev_idx(k: int) -> int {
    if k == 0 {
        3int
    } else {
        k - 1
    }
}

/// The vertex one step ahead of `k` in traversal order.
pub open spec fn next_idx(k: int) -> int {
    if k == 3 {
        0int
    } else {
        k + 1
    }
}

/// Rejection of `(ux, uy)` from an axis-aligned edge vector `(ax, ay)`: the
/// component of the vector perpendicular to the edge.
pub open spec fn reject_axis(ux: int, uy: int, ax: int, ay: int) -> (int, int)
    recommends
        (ax == 0) != (ay == 0),
{
    if ay == 0 {
        (0int, uy)
    } else {
        (ux, 0int)
    }
}

/// Circle versus box, circle first, centre `pc` and radius `r` against a box
/// centred at `pb` with half-extents `h`. The circle centre's Voronoi region
/// against the box picks the separating axis: one of the two edges adjacent
/// to the closest vertex, or the corner itself. A world-axis overlap test
/// gates every region; the corner region adds a one-dimensional overlap test
/// along the axis from the vertex to the centre, carried out at integer scale
/// `l` (the integer length of that axis). The normal points from the box
/// toward the circle; a centre exactly on the closest vertex falls back to
/// the fixed unit vector `(1, 0)`.
pub open spec fn circle_box_model(pc: Vec2, r: int, pb: Vec2, h: Vec2) -> Option<(int, int, int)> {
    let minx = pb.x - h.x;
    let maxx = pb.x + h.x;
    let miny = pb.y - h.y;
    let maxy = pb.y + h.y;
    let cminx = pc.x - r;
    let cmaxx = pc.x + r;
    let cminy = pc.y - r;
    let cmaxy = pc.y + r;
    if !(maxx > cminx && minx < cmaxx && maxy > cminy && miny < cmaxy) {
        Option::None
    } else {
        let edge_pen = min_i(
            min_i(cmaxx - minx, maxx - cminx),
            min_i(cmaxy - miny, maxy - cminy),
        );
        let d0 = sq_dist(maxx, maxy, pc.x as int, pc.y as int);
        let d1 = sq_dist(maxx, miny, pc.x as int, pc.y as int);
        let d2 = sq_dist(minx, miny, pc.x as int, pc.y as int);
        let d3 = sq_dist(minx, maxy, pc.x as int, pc.y as int);
        let k = closest_idx(d0, d1, d2, d3);
        let cv = box_vertex(k, minx, miny, maxx, maxy);
        let bv = box_vertex(prev_idx(k), minx, miny, maxx, maxy);
        let fv = box_vertex(next_idx(k), minx, miny, maxx, maxy);
        let ux = pc.x - cv.0;
        let uy = pc.y - cv.1;
        let abx = bv.0 - cv.0;
        let aby = bv.1 - cv.1;
        let afx = fv.0 - cv.0;
        let afy = fv.1 - cv.1;
        if dot_s(ux, uy, abx, aby) > 0 {
            let rj = reject_axis(ux, uy, abx, aby);
            let n = unit_along(rj.0, rj.1);
            Option::Some((n.0, n.1, edge_pen))
        } else if dot_s(ux, uy, afx, afy) > 0 {
            let rj = reject_axis(ux, uy, afx, afy);
            let n = unit_along(rj.0, rj.1);
            Option::Some((n.0, n.1, edge_pen))
        } else {
            let l = sqrt_floor((ux * ux + uy * uy) as nat) as int;
            if l == 0 {
                Option::Some(((FIXED_ONE as int), 0int, edge_pen))
            } else {
                let p0 = dot_s(maxx, maxy, ux, uy);
                let p1 = dot_s(maxx, miny, ux, uy);
                let p2 = dot_s(minx, miny, ux, uy);
                let p3 = dot_s(minx, maxy, ux, uy);
                let maxp = max_i(max_i(p0, p1), max_i(p2, p3));
                let minp = min_i(min_i(p0, p1), min_i(p2, p3));
                let cproj = dot_s(pc.x as int, pc.y as int, ux, uy);
                let cmin = cproj - r * l;
                let cmax = cproj + r * l;
                if maxp > cmin && minp < cmax {
                    let pen = div_trunc(min_i(cmax - minp, maxp - cmin), l);
                    Option::Some(
                        (div_trunc(ux * FIXED_ONE, l), div_trunc(uy * FIXED_ONE, l), pen),
                    )
                } else {
                    Option::None
                }
            }
        }
    }
}

/// The same contact seen from the other body: normal negated, depth kept.
pub open spec fn neg_model(m: Option<(int, int, int)>) -> Option<(int, int, int)> {
    match m {
        Option::Some(t) => Option::Some((-t.0, -t.1, t.2)),
        Option::None => Option::None,
    }
}

/// The fixed-point unit vector along a world axis in the direction of `d`,
/// with zero resolved to the positive direction by convention.
pub open spec fn axis_sign(d: int) -> int {
    if d >= 0 {
        FIXED_ONE as int
    } else {
        -(FIXED_ONE as int)
    }
}

/// Box versus box, centres `pa` and `pb` with half-extents `ha` and `hb`:
/// colliding exactly when both per-axis overlaps are strictly positive; the
/// axis of minimum overlap carries the contact (ties favour x), the normal
/// points from `pb` toward `pa`, and the depth is the chosen overlap.
pub open spec fn box_box_model(pa: Vec2, ha: Vec2, pb: Vec2, hb: Vec2) -> Option<
    (int, int, int),
> {
    let ox = ha.x + hb.x - abs_i(pa.x - pb.x);
    let oy = ha.y + hb.y - abs_i(pa.y - pb.y);
    if ox > 0 && oy > 0 {
        if ox <= oy {
            Option::Some((axis_sign(pa.x - pb.x), 0int, ox))
        } else {
            Option::Some((0int, axis_sign(pa.y - pb.y), oy))
        }
    } else {
        Option::None
    }
}

/// The fixed-point unit vector along `(dx, dy)`, as executable code:
/// integer length by square root, then one truncating division per component.
fn fixed_unit_along(dx: i64, dy: i64) -> (n: Vec2)
    requires
        -3_000_000_000 <= dx <= 3_000_000_000,
        -3_000_000_000 <= dy <= 3_000_000_000,
    ensures
        n.x == unit_along(dx as int, dy as int).0,
        n.y == unit_along(dx as int, dy as int).1,
        -FIXED_ONE <= n.x <= FIXED_ONE,
        -FIXED_ONE <= n.y <= FIXED_ONE,
{
    if dx == 0 && dy == 0 {
        Vec2 { x: FIXED_ONE, y: 0 }
    } else {
        proof {
            assert(dx * dx <= 9_000_000_000_000_000_000 && dx * dx >= 0) by (nonlinear_arith)
                requires
                    -3_000_000_000 <= dx <= 3_000_000_000,
            ;
            assert(dy * dy <= 9_000_000_000_000_000_000 && dy * dy >= 0) by (nonlinear_arith)
                requires
                    -3_000_000_000 <= dy <= 3_000_000_000,
            ;
            assert(dx != 0 ==> dx * dx >= 1) by (nonlinear_arith);
            assert(dy != 0 ==> dy * dy >= 1) by (nonlinear_arith);
        }
        let d2: i128 = (dx as i128) * (dx as i128) + (dy as i128) * (dy as i128);
        let l_u: u64 = isqrt_u64(d2 as u64);
        proof {
            lemma_sqrt_floor_bounds(d2 as nat);
            if l_u == 0 {
                assert(d2 < 1) by (nonlinear_arith)
                    requires
                        d2 < (l_u + 1) * (l_u + 1),
                        l_u == 0,
                ;
            }
        }
        let l: i64 = l_u as i64;
        proof {
            assert(abs_i(dx as int) <= l && abs_i(dy as int) <= l) by (nonlinear_arith)
                requires
                    dx * dx <= d2,
                    dy * dy <= d2,
                    d2 < (l + 1) * (l + 1),
                    l >= 0,
            ;
            assert(abs_i(dx * FIXED_ONE) <= FIXED_ONE * l && abs_i(dy * FIXED_ONE) <= FIXED_ONE
                * l) by (nonlinear_arith)
                requires
                    abs_i(dx as int) <= l,
                    abs_i(dy as int) <= l,
                    FIXED_ONE == 1_000_000,
            ;
            lemma_div_trunc_bound(dx as int * FIXED_ONE, l as int, FIXED_ONE as int);
            lemma_div_trunc_bound(dy as int * FIXED_ONE, l as int, FIXED_ONE as int);
        }
        let nx = div_trunc_i128((dx as i128) * (FIXED_ONE as i128), l as i128);
        let ny = div_trunc_i128((dy as i128) * (FIXED_ONE as i128), l as i128);
        Vec2 { x: nx as i64, y: ny as i64 }
    }
}

/// Strict interval-overlap test on both world axes: `Some` of the per-axis
/// penetration depths when the boxes `[min_1, max_1]` and `[min_2, max_2]`
/// overlap on both axes, `None` otherwise.
fn is_overlaping_both_world_axes(min_1: Vec2, max_1: Vec2, min_2: Vec2, max_2: Vec2) -> (r: Option<
    Vec2,
>)
    requires
        -3_000_000_000 <= min_1.x <= 3_000_000_000,
        -3_000_000_000 <= min_1.y <= 3_000_000_000,
        -3_000_000_000 <= max_1.x <= 3_000_000_000,
        -3_000_000_000 <= max_1.y <= 3_000_000_000,
        -3_000_000_000 <= min_2.x <= 3_000_000_000,
        -3_000_000_000 <= min_2.y <= 3_000_000_000,
        -3_000_000_000 <= max_2.x <= 3_000_000_000,
        -3_000_000_000 <= max_2.y <= 3_000_000_000,
    ensures
        (max_1.x > min_2.x && min_1.x < max_2.x && max_1.y > min_2.y && min_1.y < max_2.y) ==> r
            == Option::Some(
            Vec2 {
                x: min_i(max_2.x - min_1.x, max_1.x - min_2.x) as i64,
                y: min_i(max_2.y - min_1.y, max_1.y - min_2.y) as i64,
            },
        ),
        !(max_1.x > min_2.x && min_1.x < max_2.x && max_1.y > min_2.y && min_1.y < max_2.y) ==> r
            is None,
{
    if (max_1.x > min_2.x && min_1.x < max_2.x) && (max_1.y > min_2.y && min_1.y < max_2.y) {
        let ax = max_2.x - min_1.x;
        let bx = max_1.x - min_2.x;
        let ay = max_2.y - min_1.y;
        let by = max_1.y - min_2.y;
        let px = if ax <= bx {
            ax
        } else {
            bx
        };
        let py = if ay <= by {
            ay
        } else {
            by
        };
        Some(Vec2 { x: px, y: py })
    } else {
        None
    }
}

/// Strict one-dimensional overlap test of `[min_1, max_1]` against
/// `[min_2, max_2]`: `Some` of the overlap length when they overlap.
fn sat_is_overlaping(min_1: i128, max_1: i128, min_2: i128, max_2: i128) -> (r: Option<i128>)
    requires
        -100_000_000_000_000_000_000_000_000 <= min_1 <= 100_000_000_000_000_000_000_000_000,
        -100_000_000_000_000_000_000_000_000 <= max_1 <= 100_000_000_000_000_000_000_000_000,
        -100_000_000_000_000_000_000_000_000 <= min_2 <= 100_000_000_000_000_000_000_000_000,
        -100_000_000_000_000_000_000_000_000 <= max_2 <= 100_000_000_000_000_000_000_000_000,
    ensures
        (max_1 > min_2 && min_1 < max_2) ==> r == Option::Some(
            min_i(max_2 as int - min_1 as int, max_1 as int - min_2 as int) as i128,
        ),
        !(max_1 > min_2 && min_1 < max_2) ==> r is None,
{
    if max_1 > min_2 && min_1 < max_2 {
        let a = max_2 - min_1;
        let b = max_1 - min_2;
        if a <= b {
            Some(a)
        } else {
            Some(b)
        }
    } else {
        None
    }
}

impl AABB {
    /// A box of the given full extents, stored as half-extents about the
    /// centre. An extent whose half is not strictly positive (or does not fit
    /// the world bound) is invalid geometry.
    pub fn new(length: i64, height: i64) -> (r: Result<AABB, PhysicsError>)
        ensures
            (1 <= length / 2 <= WORLD_MAX && 1 <= height / 2 <= WORLD_MAX) <==> r is Ok,
            r matches Ok(b) ==> b.half_extents == (Vec2 { x: (length / 2) as i64, y: (height / 2) as i64 })
                && aabb_wf(b),
            !(1 <= length / 2 <= WORLD_MAX && 1 <= height / 2 <= WORLD_MAX) ==> r == Result::<
                AABB,
                PhysicsError,
            >::Err(PhysicsError::InvalidShape),
    {
        if length >= 2 && height >= 2 {
            let hx = ((length as u64) / 2) as i64;
            let hy = ((height as u64) / 2) as i64;
            if hx <= WORLD_MAX && hy <= WORLD_MAX {
                return Ok(AABB { half_extents: Vec2 { x: hx, y: hy } });
            }
        }
        Err(PhysicsError::InvalidShape)
    }

    /// The world-space lower-left and upper-right corners of the box.
    pub fn get_extents_as_global_vectors(&self, self_transform: &Pose) -> (r: (Vec2, Vec2))
        requires
            aabb_wf(*self),
            pose_wf(*self_transform),
        ensures
            r.0 == (Vec2 {
                x: (self_transform.position.x - self.half_extents.x) as i64,
                y: (self_transform.position.y - self.half_extents.y) as i64,
            }),
            r.1 == (Vec2 {
                x: (self_transform.position.x + self.half_extents.x) as i64,
                y: (self_transform.position.y + self.half_extents.y) as i64,
            }),
    {
        let p = self_transform.position;
        let lo = Vec2 { x: p.x - self.half_extents.x, y: p.y - self.half_extents.y };
        let hi = Vec2 { x: p.x + self.half_extents.x, y: p.y + self.half_extents.y };
        (lo, hi)
    }

    /// The four world-space corners of the box, in a fixed traversal order:
    /// upper-right, lower-right, lower-left, upper-left.
    pub fn get_extents_as_array_of_verteces(&self, self_transform: &Pose) -> (r: [Vec2; 4])
        requires
            aabb_wf(*self),
            pose_wf(*self_transform),
        ensures
            r@.len() == 4,
            r@[0] == (Vec2 {
                x: (self_transform.position.x + self.half_extents.x) as i64,
                y: (self_transform.position.y + self.half_extents.y) as i64,
            }),
            r@[1] == (Vec2 {
                x: (self_transform.position.x + self.half_extents.x) as i64,
                y: (self_transform.position.y - self.half_extents.y) as i64,
            }),
            r@[2] == (Vec2 {
                x: (self_transform.position.x - self.half_extents.x) as i64,
                y: (self_transform.position.y - self.half_extents.y) as i64,
            }),
            r@[3] == (Vec2 {
                x: (self_transform.position.x - self.half_extents.x) as i64,
                y: (self_transform.position.y + self.half_extents.y) as i64,
            }),
    {
        let (world_min, world_max) = self.get_extents_as_global_vectors(self_transform);
        [
            world_max,
            Vec2 { x: world_max.x, y: world_min.y },
            world_min,
            Vec2 { x: world_min.x, y: world_max.y },
        ]
    }

    /// Box versus box. The normal points from `other` toward `self`.
    pub fn is_colliding_with_AABB(
        &self,
        self_transform: &Pose,
        other: &AABB,
        other_transform: &Pose,
    ) -> (r: Option<CollisionData>)
        requires
            aabb_wf(*self),
            aabb_wf(*other),
            pose_wf(*self_transform),
            pose_wf(*other_transform),
        ensures
            contact_matches(
                r,
                box_box_model(
                    self_transform.position,
                    self.half_extents,
                    other_transform.position,
                    other.half_extents,
                ),
            ),
            r matches Some(c) ==> contact_wf(c),
    {
        let dx: i64 = self_transform.position.x - other_transform.position.x;
        let dy: i64 = self_transform.position.y - other_transform.position.y;
        let adx: i64 = if dx < 0 {
            -dx
        } else {
            dx
        };
        let ady: i64 = if dy < 0 {
            -dy
        } else {
            dy
        };
        let overlap_x: i64 = self.half_extents.x + other.half_extents.x - adx;
        if overlap_x > 0 {
            let overlap_y: i64 = self.half_extents.y + other.half_extents.y - ady;
            if overlap_y > 0 {
                let normal: Vec2;
                let penetration: i64;
                if overlap_x <= overlap_y {
                    if dx < 0 {
                        normal = Vec2 { x: -FIXED_ONE, y: 0 };
                    } else {
                        normal = Vec2 { x: FIXED_ONE, y: 0 };
                    }
                    penetration = overlap_x;
                } else {
                    if dy < 0 {
                        normal = Vec2 { x: 0, y: -FIXED_ONE };
                    } else {
                        normal = Vec2 { x: 0, y: FIXED_ONE };
                    }
                    penetration = overlap_y;
                }
                return Some(CollisionData { unit_normal: normal, penetration_depth: penetration });
            }
        }
        None
    }

    /// Box versus circle. The circle centre's Voronoi region against the box
    /// picks the separating axis (an adjacent edge, or the corner itself);
    /// the normal points from `other` (the circle) toward `self` (the box).
    #[verifier::rlimit(100)]
    pub fn is_colliding_with_circle(
        &self,
        self_transform: &Pose,
        other: &CircleCollider,
        other_transform: &Pose,
    ) -> (r: Option<CollisionData>)
        requires
            aabb_wf(*self),
            circle_wf(*other),
            pose_wf(*self_transform),
            pose_wf(*other_transform),
        ensures
            contact_matches(
                r,
                neg_model(
                    circle_box_model(
                        other_transform.position,
                        other.radius as int,
                        self_transform.position,
                        self.half_extents,
                    ),
                ),
            ),
            r matches Some(c) ==> contact_wf(c),
    {
        let (bmin, bmax) = self.get_extents_as_global_vectors(self_transform);
        let (cbmin, cbmax) = other.get_extents_on_world_axes(other_transform);
        let overlaps = match is_overlaping_both_world_axes(bmin, bmax, cbmin, cbmax) {
            None => {
                return None;
            },
            Some(v) => v,
        };
        let edge_pen: i64 = if overlaps.x <= overlaps.y {
            overlaps.x
        } else {
            overlaps.y
        };
        let pcx = other_transform.position.x;
        let pcy = other_transform.position.y;
        // squared centre distance to each corner, in traversal order
        let d0: i128 = sq_i128(bmax.x - pcx) + sq_i128(bmax.y - pcy);
        let d1: i128 = sq_i128(bmax.x - pcx) + sq_i128(bmin.y - pcy);
        let d2: i128 = sq_i128(bmin.x - pcx) + sq_i128(bmin.y - pcy);
        let d3: i128 = sq_i128(bmin.x - pcx) + sq_i128(bmax.y - pcy);
        let mut ci: usize = 0;
        let mut cd: i128 = d0;
        if d1 < cd {
            ci = 1;
            cd = d1;
        }
        if d2 < cd {
            ci = 2;
            cd = d2;
        }
        if d3 < cd {
            ci = 3;
            cd = d3;
        }
        proof {
            assert(ci as int == closest_idx(d0 as int, d1 as int, d2 as int, d3 as int));
        }
        // the closest vertex and its two neighbours in traversal order
        let (cvx, cvy, bvx, bvy, fvx, fvy) = if ci == 0 {
            (bmax.x, bmax.y, bmin.x, bmax.y, bmax.x, bmin.y)
        } else if ci == 1 {
            (bmax.x, bmin.y, bmax.x, bmax.y, bmin.x, bmin.y)
        } else if ci == 2 {
            (bmin.x, bmin.y, bmax.x, bmin.y, bmin.x, bmax.y)
        } else {
            (bmin.x, bmax.y, bmin.x, bmin.y, bmax.x, bmax.y)
        };
        let ux = pcx - cvx;
        let uy = pcy - cvy;
        let abx = bvx - cvx;
        let aby = bvy - cvy;
        let afx = fvx - cvx;
        let afy = fvy - cvy;
        let dot_b: i128 = mul_i128(ux, abx) + mul_i128(uy, aby);
        if dot_b > 0 {
            // edge region behind the closest vertex
            let rjx: i64;
            let rjy: i64;
            if aby == 0 {
                rjx = 0;
                rjy = uy;
            } else {
                rjx = ux;
                rjy = 0;
            }
            let m = fixed_unit_along(rjx, rjy);
            return Some(
                CollisionData {
                    unit_normal: Vec2 { x: -m.x, y: -m.y },
                    penetration_depth: edge_pen,
                },
            );
        }
        let dot_f: i128 = mul_i128(ux, afx) + mul_i128(uy, afy);
        if dot_f > 0 {
            // edge region in front of the closest vertex
            let rjx: i64;
            let rjy: i64;
            if afy == 0 {
                rjx = 0;
                rjy = uy;
            } else {
                rjx = ux;
                rjy = 0;
            }
            let m = fixed_unit_along(rjx, rjy);
            return Some(
                CollisionData {
                    unit_normal: Vec2 { x: -m.x, y: -m.y },
                    penetration_depth: edge_pen,
                },
            );
        }
        // corner region: separating axis from the closest vertex to the centre
        let u2: i128 = sq_i128(ux) + sq_i128(uy);
        proof {
            assert(ux * ux <= 9_000_000_000_000_000_000) by (nonlinear_arith)
                requires
                    -3_000_000_000 <= ux <= 3_000_000_000,
            ;
            assert(uy * uy <= 9_000_000_000_000_000_000) by (nonlinear_arith)
                requires
                    -3_000_000_000 <= uy <= 3_000_000_000,
            ;
        }
        let l_u: u64 = isqrt_u64(u2 as u64);
        proof {
            lemma_sqrt_floor_bounds(u2 as nat);
        }
        if l_u == 0 {
            return Some(
                CollisionData {
                    unit_normal: Vec2 { x: -FIXED_ONE, y: 0 },
                    penetration_depth: edge_pen,
                },
            );
        }
        let l: i64 = l_u as i64;
        let p0: i128 = mul_i128(bmax.x, ux) + mul_i128(bmax.y, uy);
        let p1: i128 = mul_i128(bmax.x, ux) + mul_i128(bmin.y, uy);
        let p2: i128 = mul_i128(bmin.x, ux) + mul_i128(bmin.y, uy);
        let p3: i128 = mul_i128(bmin.x, ux) + mul_i128(bmax.y, uy);
        let mut maxp: i128 = p0;
        if p1 > maxp {
            maxp = p1;
        }
        if p2 > maxp {
            maxp = p2;
        }
        if p3 > maxp {
            maxp = p3;
        }
        let mut minp: i128 = p0;
        if p1 < minp {
            minp = p1;
        }
        if p2 < minp {
            minp = p2;
        }
        if p3 < minp {
            minp = p3;
        }
        let cproj: i128 = mul_i128(pcx, ux) + mul_i128(pcy, uy);
        let rl: i128 = mul_i128(other.radius, l);
        let cmin_p: i128 = cproj - rl;
        let cmax_p: i128 = cproj + rl;
        match sat_is_overlaping(minp, maxp, cmin_p, cmax_p) {
            None => None,
            Some(pen_scaled) => {
                proof {
                    // in the corner region the closest vertex attains the
                    // greatest projection, which caps the overlap at r * l
                    let cvdot = cvx as int * ux + cvy as int * uy;
                    assert(pcx as int * ux == cvx as int * ux + ux * ux) by (nonlinear_arith)
                        requires
                            pcx == cvx + ux,
                    ;
                    assert(pcy as int * uy == cvy as int * uy + uy * uy) by (nonlinear_arith)
                        requires
                            pcy == cvy + uy,
                    ;
                    assert(bvx as int * ux + bvy as int * uy == cvdot + (ux as int * abx + uy
                        as int * aby)) by (nonlinear_arith)
                        requires
                            bvx == cvx + abx,
                            bvy == cvy + aby,
                            cvdot == cvx as int * ux + cvy as int * uy,
                    ;
                    assert(fvx as int * ux + fvy as int * uy == cvdot + (ux as int * afx + uy
                        as int * afy)) by (nonlinear_arith)
                        requires
                            fvx == cvx + afx,
                            fvy == cvy + afy,
                            cvdot == cvx as int * ux + cvy as int * uy,
                    ;
                    // the diagonal vertex is the sum of both edge offsets
                    let dgx = if ci == 0 {
                        bmin.x
                    } else if ci == 1 {
                        bmin.x
                    } else if ci == 2 {
                        bmax.x
                    } else {
                        bmax.x
                    };
                    let dgy = if ci == 0 {
                        bmin.y
                    } else if ci == 1 {
                        bmax.y
                    } else if ci == 2 {
                        bmax.y
                    } else {
                        bmin.y
                    };
                    assert(dgx == cvx + abx + afx && dgy == cvy + aby + afy);
                    assert(dgx as int * ux + dgy as int * uy == cvdot + (ux as int * abx + uy
                        as int * aby) + (ux as int * afx + uy as int * afy)) by (nonlinear_arith)
                        requires
                            dgx == cvx + abx + afx,
                            dgy == cvy + aby + afy,
                            cvdot == cvx as int * ux + cvy as int * uy,
                    ;
                    assert(maxp <= cvdot);
                    assert(pen_scaled <= rl - u2);
                    assert(0 <= pen_scaled <= other.radius as int * l) by {
                        assert(dot_b <= 0 && dot_f <= 0);
                    }
                    lemma_div_trunc_bound(pen_scaled as int, l as int, other.radius as int);
                    assert(pen_scaled as int / (l as int) >= 0) by (nonlinear_arith)
                        requires
                            pen_scaled >= 0,
                            l >= 1,
                    ;
                    // components of the axis are bounded by its length
                    assert(abs_i(ux as int) <= l && abs_i(uy as int) <= l) by (nonlinear_arith)
                        requires
                            ux * ux <= u2,
                            uy * uy <= u2,
                            u2 < (l + 1) * (l + 1),
                            l >= 0,
                    ;
                    assert(abs_i(ux * FIXED_ONE) <= FIXED_ONE * l && abs_i(uy * FIXED_ONE)
                        <= FIXED_ONE * l) by (nonlinear_arith)
                        requires
                            abs_i(ux as int) <= l,
                            abs_i(uy as int) <= l,
                            FIXED_ONE == 1_000_000,
                    ;
                    lemma_div_trunc_bound(ux as int * FIXED_ONE, l as int, FIXED_ONE as int);
                    lemma_div_trunc_bound(uy as int * FIXED_ONE, l as int, FIXED_ONE as int);
                }
                let pen = div_trunc_i128(pen_scaled, l as i128) as i64;
                let nx = div_trunc_i128((ux as i128) * (FIXED_ONE as i128), l as i128) as i64;
                let ny = div_trunc_i128((uy as i128) * (FIXED_ONE as i128), l as i128) as i64;
                Some(
                    CollisionData {
                        unit_normal: Vec2 { x: -nx, y: -ny },
                        penetration_depth: pen,
                    },
                )
            },
        }
    }
}

impl CircleCollider {
    /// The world-axis-aligned bounding interval of the circle, as lower-left
    /// and upper-right corners.
    fn get_extents_on_world_axes(&self, self_transform: &Pose) -> (r: (Vec2, Vec2))
        requires
            circle_wf(*self),
            pose_wf(*self_transform),
        ensures
            r.0 == (Vec2 {
                x: (self_transform.position.x - self.radius) as i64,
                y: (self_transform.position.y - self.radius) as i64,
            }),
            r.1 == (Vec2 {
                x: (self_transform.position.x + self.radius) as i64,
                y: (self_transform.position.y + self.radius) as i64,
            }),
    {
        let p = self_transform.position;
        (
            Vec2 { x: p.x - self.radius, y: p.y - self.radius },
            Vec2 { x: p.x + self.radius, y: p.y + self.radius },
        )
    }

    /// A circle of the given radius. A radius that is not strictly positive
    /// (or does not fit the world bound) is invalid geometry.
    pub fn new(radius: i64) -> (r: Result<CircleCollider, PhysicsError>)
        ensures
            1 <= radius <= WORLD_MAX <==> r is Ok,
            r matches Ok(c) ==> c.radius == radius && circle_wf(c),
            !(1 <= radius <= WORLD_MAX) ==> r == Result::<CircleCollider, PhysicsError>::Err(
                PhysicsError::InvalidShape,
            ),
    {
        if 1 <= radius && radius <= WORLD_MAX {
            Ok(CircleCollider { radius })
        } else {
            Err(PhysicsError::InvalidShape)
        }
    }

    /// Circle versus circle. The normal points from `other` toward `self`.
    pub fn is_colliding_with_circle(
        &self,
        self_transform: &Pose,
        other: &CircleCollider,
        other_transform: &Pose,
    ) -> (r: Option<CollisionData>)
        requires
            circle_wf(*self),
            circle_wf(*other),
            pose_wf(*self_transform),
            pose_wf(*other_transform),
        ensures
            contact_matches(
                r,
                circle_circle_model(
                    self_transform.position,
                    self.radius as int,
                    other_transform.position,
                    other.radius as int,
                ),
            ),
            r matches Some(c) ==> contact_wf(c),
    {
        let dx: i64 = self_transform.position.x - other_transform.position.x;
        let dy: i64 = self_transform.position.y - other_transform.position.y;
        proof {
            assert(dx * dx <= 4_000_000_000_000_000_000 && dx * dx >= 0) by (nonlinear_arith)
                requires
                    -2_000_000_000 <= dx <= 2_000_000_000,
            ;
            assert(dy * dy <= 4_000_000_000_000_000_000 && dy * dy >= 0) by (nonlinear_arith)
                requires
                    -2_000_000_000 <= dy <= 2_000_000_000,
            ;
        }
        let d2: i128 = (dx as i128) * (dx as i128) + (dy as i128) * (dy as i128);
        let rsum: i64 = self.radius + other.radius;
        proof {
            assert(rsum * rsum <= 4_000_000_000_000_000_000 && rsum * rsum >= 0)
                by (nonlinear_arith)
                requires
                    0 <= rsum <= 2_000_000_000,
            ;
        }
        let rs2: i128 = (rsum as i128) * (rsum as i128);
        if d2 < rs2 {
            let dist_u: u64 = isqrt_u64(d2 as u64);
            proof {
                lemma_sqrt_floor_bounds(d2 as nat);
            }
            let dist: i64 = dist_u as i64;
            proof {
                assert(dist < rsum) by (nonlinear_arith)
                    requires
                        dist * dist <= d2 < rsum * rsum,
                        dist >= 0,
                        rsum >= 0,
                ;
            }
            let pen: i64 = rsum - dist;
            let normal: Vec2;
            if dist == 0 {
                proof {
                    assert(d2 < 1) by (nonlinear_arith)
                        requires
                            d2 < (dist + 1) * (dist + 1),
                            dist == 0,
                    ;
                    assert(dx == 0 && dy == 0) by (nonlinear_arith)
                        requires
                            dx * dx + dy * dy == 0,
                    ;
                }
                normal = Vec2 { x: FIXED_ONE, y: 0 };
            } else {
                proof {
                    if dx == 0 && dy == 0 {
                        assert(d2 == 0) by (nonlinear_arith)
                            requires
                                dx == 0,
                                dy == 0,
                                d2 == dx * dx + dy * dy,
                        ;
                    }
                    assert(abs_i(dx as int) <= dist && abs_i(dy as int) <= dist)
                        by (nonlinear_arith)
                        requires
                            dx * dx <= d2,
                            dy * dy <= d2,
                            d2 < (dist + 1) * (dist + 1),
                            dist >= 0,
                    ;
                    assert(abs_i(dx * FIXED_ONE) <= FIXED_ONE * dist && abs_i(
                        dy * FIXED_ONE,
                    ) <= FIXED_ONE * dist) by (nonlinear_arith)
                        requires
                            abs_i(dx as int) <= dist,
                            abs_i(dy as int) <= dist,
                            FIXED_ONE == 1_000_000,
                    ;
                    lemma_div_trunc_bound(dx as int * FIXED_ONE, dist as int, FIXED_ONE as int);
                    lemma_div_trunc_bound(dy as int * FIXED_ONE, dist as int, FIXED_ONE as int);
                }
                let nx = div_trunc_i128((dx as i128) * (FIXED_ONE as i128), dist as i128);
                let ny = div_trunc_i128((dy as i128) * (FIXED_ONE as i128), dist as i128);
                normal = Vec2 { x: nx as i64, y: ny as i64 };
            }
            Some(CollisionData { unit_normal: normal, penetration_depth: pen })
        } else {
            None
        }
    }

    /// Circle versus box. The normal points from `other` (the box) toward
    /// `self` (the circle): the box's own test is reused with its normal
    /// negated.
    pub fn is_colliding_with_AABB(
        &self,
        self_transform: &Pose,
        other: &AABB,
        other_transform: &Pose,
    ) -> (r: Option<CollisionData>)
        requires
            circle_wf(*self),
            aabb_wf(*other),
            pose_wf(*self_transform),
            pose_wf(*other_transform),
        ensures
            contact_matches(
                r,
                circle_box_model(
                    self_transform.position,
                    self.radius as int,
                    other_transform.position,
                    other.half_extents,
                ),
            ),
            r matches Some(c) ==> contact_wf(c),
    {
        match other.is_colliding_with_circle(other_transform, self, self_transform) {
            None => None,
            Some(c) => Some(
                CollisionData {
                    unit_normal: Vec2 { x: -c.unit_normal.x, y: -c.unit_normal.y },
                    penetration_depth: c.penetration_depth,
                },
            ),
        }
    }
}

/// The narrow-phase entry point: dispatch on both shape variants, exhaustive
/// over all four ordered combinations. A returned contact's normal points
/// from the second body toward the first.
pub open spec fn detect_model(a: Primitives, pa: Pose, b: Primitives, pb: Pose) -> Option<
    (int, int, int),
> {
    match (a, b) {
        (Primitives::Circle(c1), Primitives::Circle(c2)) => circle_circle_model(
            pa.position,
            c1.radius as int,
            pb.position,
            c2.radius as int,
        ),
        (Primitives::Circle(c1), Primitives::AABB(b2)) => circle_box_model(
            pa.position,
            c1.radius as int,
            pb.position,
            b2.half_extents,
        ),
        (Primitives::AABB(b1), Primitives::Circle(c2)) => neg_model(
            circle_box_model(pb.position, c2.radius as int, pa.position, b1.half_extents),
        ),
        (Primitives::AABB(b1), Primitives::AABB(b2)) => box_box_model(
            pa.position,
            b1.half_extents,
            pb.position,
            b2.half_extents,
        ),
    }
}

/// Narrow-phase test of two placed shapes. The normal of a returned contact
/// points from the second shape toward the first.
pub fn detect(a: &Primitives, pa: &Pose, b: &Primitives, pb: &Pose) -> (r: Option<CollisionData>)
    requires
        shape_wf(*a),
        shape_wf(*b),
        pose_wf(*pa),
        pose_wf(*pb),
    ensures
        contact_matches(r, detect_model(*a, *pa, *b, *pb)),
        r matches Some(c) ==> contact_wf(c),
{
    match (a, b) {
        (Primitives::Circle(c1), Primitives::Circle(c2)) => c1.is_colliding_with_circle(
            pa,
            c2,
            pb,
        ),
        (Primitives::Circle(c1), Primitives::AABB(b2)) => c1.is_colliding_with_AABB(pa, b2, pb),
        (Primitives::AABB(b1), Primitives::Circle(c2)) => b1.is_colliding_with_circle(pa, c2, pb),
        (Primitives::AABB(b1), Primitives::AABB(b2)) => b1.is_colliding_with_AABB(pa, b2, pb),
    }
}

/// The poses on which the mirror-symmetry of `detect_model` degenerates:
/// the arbitrary fixed direction that stands in for an undefined one is the
/// same from both sides, so it cannot be its own negation. For circles this
/// is coincident centres; for boxes, a zero centre difference along the
/// contact axis, where the sign convention resolves to the positive
/// direction for both orders.
pub open spec fn mirror_degenerate(a: Primitives, pa: Pose, b: Primitives, pb: Pose) -> bool {
    match (a, b) {
        (Primitives::Circle(_), Primitives::Circle(_)) => pa.position == pb.position,
        (Primitives::AABB(b1), Primitives::AABB(b2)) => {
            let ox = b1.half_extents.x + b2.half_extents.x - abs_i(
                pa.position.x - pb.position.x,
            );
            let oy = b1.half_extents.y + b2.half_extents.y - abs_i(
                pa.position.y - pb.position.y,
            );
            ox > 0 && oy > 0 && (if ox <= oy {
                pa.position.x == pb.position.x
            } else {
                pa.position.y == pb.position.y
            })
        },
        _ => false,
    }
}

/// Mirror symmetry of the narrow-phase detector: swapping the two bodies
/// yields the same verdict and penetration depth, with the contact normal
/// negated — for every non-degenerate pair of placed shapes.
pub proof fn lemma_detect_mirror_symmetry(a: Primitives, pa: Pose, b: Primitives, pb: Pose)
    requires
        shape_wf(a),
        shape_wf(b),
        pose_wf(pa),
        pose_wf(pb),
        !mirror_degenerate(a, pa, b, pb),
    ensures
        detect_model(a, pa, b, pb) is Some <==> detect_model(b, pb, a, pa) is Some,
        detect_model(a, pa, b, pb) matches Option::Some(t) ==> detect_model(b, pb, a, pa)
            == Option::Some((-t.0, -t.1, t.2)),
{
    match (a, b) {
        (Primitives::Circle(c1), Primitives::Circle(c2)) => {
            let dx = pa.position.x - pb.position.x;
            let dy = pa.position.y - pb.position.y;
            assert((-dx) * (-dx) == dx * dx && (-dy) * (-dy) == dy * dy) by (nonlinear_arith);
            let d2 = dx * dx + dy * dy;
            let rsum = c1.radius + c2.radius;
            if d2 < rsum * rsum {
                assert(dx != 0 || dy != 0);
                if d2 == 0 {
                    assert(dx == 0 && dy == 0) by (nonlinear_arith)
                        requires
                            dx * dx + dy * dy == 0,
                    ;
                }
                let l = sqrt_floor(d2 as nat) as int;
                assert(d2 >= 1) by (nonlinear_arith)
                    requires
                        d2 == dx * dx + dy * dy,
                        dx != 0 || dy != 0,
                ;
                lemma_sqrt_floor_bounds(d2 as nat);
                if l == 0 {
                    assert(d2 < 1) by (nonlinear_arith)
                        requires
                            d2 < (l + 1) * (l + 1),
                            l == 0,
                    ;
                }
                crate::math::lemma_div_trunc_neg(dx * FIXED_ONE, l);
                crate::math::lemma_div_trunc_neg(dy * FIXED_ONE, l);
                assert((-dx) * FIXED_ONE == -(dx * FIXED_ONE) && (-dy) * FIXED_ONE == -(dy
                    * FIXED_ONE)) by (nonlinear_arith);
            }
        },
        (Primitives::Circle(_), Primitives::AABB(_)) => {
        },
        (Primitives::AABB(_), Primitives::Circle(_)) => {
        },
        (Primitives::AABB(_), Primitives::AABB(_)) => {
        },
    }
}

} // verus!
