//! Narrow-phase detection: every shape-pair combination, edge cases, and
//! mirror symmetry on concrete values.

use rigid2d::collision_primitives::{detect, CircleCollider, Primitives, AABB};
use rigid2d::math::FIXED_ONE;
use rigid2d::vec2::{Pose, Vec2};

fn pose(x: i64, y: i64) -> Pose {
    Pose { position: Vec2 { x, y }, orientation: 0 }
}

fn circle(radius: i64) -> CircleCollider {
    CircleCollider::new(radius).unwrap()
}

fn aabb(length: i64, height: i64) -> AABB {
    AABB::new(length, height).unwrap()
}

#[test]
fn circle_circle_reports_penetration_and_unit_normal() {
    // radii 20 + 20 = 40, centres 30 apart: penetration 10, normal along the
    // line of centres
    let c = circle(20);
    let hit = c
        .is_colliding_with_circle(&pose(0, 0), &circle(20), &pose(30, 0))
        .unwrap();
    assert_eq!(hit.penetration_depth, 10);
    assert_eq!(hit.unit_normal.x, -FIXED_ONE);
    assert_eq!(hit.unit_normal.y, 0);
}

#[test]
fn circle_circle_diagonal_exact_distance() {
    // 3-4-5 triangle scaled by 10: distance 50, radii 30 + 30
    let c = circle(30);
    let hit = c
        .is_colliding_with_circle(&pose(30, 40), &circle(30), &pose(0, 0))
        .unwrap();
    assert_eq!(hit.penetration_depth, 10);
    assert_eq!(hit.unit_normal.x, 30 * FIXED_ONE / 50);
    assert_eq!(hit.unit_normal.y, 40 * FIXED_ONE / 50);
}

#[test]
fn circle_circle_touching_is_no_contact() {
    let c = circle(20);
    assert!(c
        .is_colliding_with_circle(&pose(0, 0), &circle(20), &pose(40, 0))
        .is_none());
}

#[test]
fn circle_circle_coincident_centres_fall_back_to_fixed_normal() {
    let c = circle(20);
    let hit = c
        .is_colliding_with_circle(&pose(7, -3), &circle(20), &pose(7, -3))
        .unwrap();
    assert_eq!(hit.penetration_depth, 40);
    assert_eq!(hit.unit_normal.x, FIXED_ONE);
    assert_eq!(hit.unit_normal.y, 0);
}

#[test]
fn box_box_with_gap_reports_no_contact() {
    // 10 x 10 boxes (half-extents 5) centred 25 apart: a gap remains
    let b = aabb(10, 10);
    assert!(b
        .is_colliding_with_AABB(&pose(0, 0), &aabb(10, 10), &pose(25, 0))
        .is_none());
}

#[test]
fn box_box_overlap_picks_minimum_axis() {
    // half-extents 5 each, centres 8 apart in x and 2 apart in y:
    // overlap_x = 2, overlap_y = 8, so the x axis carries the contact
    let b = aabb(10, 10);
    let hit = b
        .is_colliding_with_AABB(&pose(8, 2), &aabb(10, 10), &pose(0, 0))
        .unwrap();
    assert_eq!(hit.penetration_depth, 2);
    assert_eq!(hit.unit_normal.x, FIXED_ONE);
    assert_eq!(hit.unit_normal.y, 0);
}

#[test]
fn box_box_touching_edges_is_no_contact() {
    let b = aabb(10, 10);
    assert!(b
        .is_colliding_with_AABB(&pose(0, 0), &aabb(10, 10), &pose(10, 0))
        .is_none());
}

#[test]
fn circle_box_edge_region() {
    // box with half-extents 5 at the origin, circle of radius 3 at (7, 0):
    // the circle sits against the right edge, overlapping by 1
    let b = aabb(10, 10);
    let c = circle(3);
    let from_box = b
        .is_colliding_with_circle(&pose(0, 0), &c, &pose(7, 0))
        .unwrap();
    assert_eq!(from_box.penetration_depth, 1);
    assert_eq!(from_box.unit_normal.x, -FIXED_ONE);
    assert_eq!(from_box.unit_normal.y, 0);

    let from_circle = c
        .is_colliding_with_AABB(&pose(7, 0), &b, &pose(0, 0))
        .unwrap();
    assert_eq!(from_circle.penetration_depth, 1);
    assert_eq!(from_circle.unit_normal.x, FIXED_ONE);
    assert_eq!(from_circle.unit_normal.y, 0);
}

#[test]
fn circle_box_corner_region() {
    // box with half-extents 5 at the origin, circle of radius 5 at (8, 8):
    // the corner (5, 5) is closest; the separating axis runs along (3, 3)
    let b = aabb(10, 10);
    let c = circle(5);
    let from_circle = c
        .is_colliding_with_AABB(&pose(8, 8), &b, &pose(0, 0))
        .unwrap();
    // axis (3, 3) has integer length 4; each normal component is 3/4
    assert_eq!(from_circle.unit_normal.x, 3 * FIXED_ONE / 4);
    assert_eq!(from_circle.unit_normal.y, 3 * FIXED_ONE / 4);
    assert_eq!(from_circle.penetration_depth, 0);

    let from_box = b
        .is_colliding_with_circle(&pose(0, 0), &c, &pose(8, 8))
        .unwrap();
    assert_eq!(from_box.unit_normal.x, -(3 * FIXED_ONE / 4));
    assert_eq!(from_box.unit_normal.y, -(3 * FIXED_ONE / 4));
    assert_eq!(from_box.penetration_depth, 0);
}

#[test]
fn circle_box_corner_separated_along_diagonal() {
    // world-axis intervals overlap, but the corner axis separates them
    let b = aabb(10, 10);
    let c = circle(4);
    assert!(c
        .is_colliding_with_AABB(&pose(8, 8), &b, &pose(0, 0))
        .is_none());
}

#[test]
fn detect_dispatches_all_four_combinations() {
    let c = Primitives::Circle(circle(20));
    let b = Primitives::AABB(aabb(30, 30));
    assert!(detect(&c, &pose(0, 0), &c, &pose(30, 0)).is_some());
    assert!(detect(&c, &pose(0, 0), &b, &pose(30, 0)).is_some());
    assert!(detect(&b, &pose(0, 0), &c, &pose(30, 0)).is_some());
    assert!(detect(&b, &pose(0, 0), &b, &pose(25, 0)).is_some());
    assert!(detect(&c, &pose(0, 0), &c, &pose(100, 0)).is_none());
    assert!(detect(&b, &pose(0, 0), &b, &pose(100, 0)).is_none());
}

#[test]
fn detect_is_mirror_symmetric_on_concrete_pairs() {
    let shapes = [
        Primitives::Circle(circle(20)),
        Primitives::AABB(aabb(24, 16)),
    ];
    let poses = [pose(0, 0), pose(21, 7), pose(-13, 5)];
    for a in &shapes {
        for b in &shapes {
            for pa in &poses {
                for pb in &poses {
                    if pa.position == pb.position {
                        continue;
                    }
                    let fwd = detect(a, pa, b, pb);
                    let rev = detect(b, pb, a, pa);
                    match (fwd, rev) {
                        (None, None) => {}
                        (Some(f), Some(r)) => {
                            assert_eq!(f.unit_normal.x, -r.unit_normal.x);
                            assert_eq!(f.unit_normal.y, -r.unit_normal.y);
                            assert_eq!(f.penetration_depth, r.penetration_depth);
                        }
                        _ => panic!("mirror verdicts disagree"),
                    }
                }
            }
        }
    }
}

#[test]
fn box_extents_and_vertices() {
    let b = aabb(4, 6);
    let p = pose(10, 20);
    let (lo, hi) = b.get_extents_as_global_vectors(&p);
    assert_eq!((lo.x, lo.y), (8, 17));
    assert_eq!((hi.x, hi.y), (12, 23));
    let verts = b.get_extents_as_array_of_verteces(&p);
    assert_eq!((verts[0].x, verts[0].y), (12, 23));
    assert_eq!((verts[1].x, verts[1].y), (12, 17));
    assert_eq!((verts[2].x, verts[2].y), (8, 17));
    assert_eq!((verts[3].x, verts[3].y), (8, 23));
}
