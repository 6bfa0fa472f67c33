//! The per-tick orchestrator: integrate all bodies, sweep all pairs.

use rigid2d::collision_primitives::{CircleCollider, Primitives, AABB};
use rigid2d::math::FIXED_ONE;
use rigid2d::rigidbody::{Mass, Rigidbody};
use rigid2d::step::step;
use rigid2d::vec2::{Pose, Vec2};

const DT: i64 = 16_667;

fn pose(x: i64, y: i64) -> Pose {
    Pose { position: Vec2 { x, y }, orientation: 0 }
}

fn circle_shape(radius: i64) -> Primitives {
    Primitives::Circle(CircleCollider::new(radius).unwrap())
}

fn box_shape(length: i64, height: i64) -> Primitives {
    Primitives::AABB(AABB::new(length, height).unwrap())
}

fn dynamic_circle(mass: i64, radius: i64, vx: i64, vy: i64, restitution: i64) -> Rigidbody {
    Rigidbody::new_shape_with_velocity(mass, radius, circle_shape(radius), Vec2 { x: vx, y: vy }, restitution)
        .unwrap()
}

#[test]
fn empty_and_singleton_worlds_step_quietly() {
    let mut world: Vec<(Rigidbody, Pose)> = Vec::new();
    step(&mut world, DT);
    assert!(world.is_empty());

    let mut world = vec![(dynamic_circle(10, 20, 60, 0, 0), pose(0, 0))];
    step(&mut world, DT);
    assert_eq!(world[0].1.position, Vec2 { x: 1, y: 0 });
}

#[test]
fn one_tick_moves_then_resolves_an_overlapping_pair() {
    // overlapping head-on circles, restitution 0: after integration they sit
    // at -14 and 14, the contact is detected and both stop dead
    let mut world = vec![
        (dynamic_circle(10, 20, 100, 0, 0), pose(-15, 0)),
        (dynamic_circle(10, 20, -100, 0, 0), pose(15, 0)),
    ];
    step(&mut world, DT);
    assert_eq!(world[0].1.position, Vec2 { x: -14, y: 0 });
    assert_eq!(world[1].1.position, Vec2 { x: 14, y: 0 });
    assert_eq!(world[0].0.linear_velocity, Vec2 { x: 0, y: 0 });
    assert_eq!(world[1].0.linear_velocity, Vec2 { x: 0, y: 0 });
}

#[test]
fn separated_bodies_keep_their_velocities() {
    let mut world = vec![
        (dynamic_circle(10, 20, 60, 0, FIXED_ONE), pose(-500, 0)),
        (dynamic_circle(10, 20, -60, 0, FIXED_ONE), pose(500, 0)),
    ];
    step(&mut world, DT);
    assert_eq!(world[0].0.linear_velocity, Vec2 { x: 60, y: 0 });
    assert_eq!(world[1].0.linear_velocity, Vec2 { x: -60, y: 0 });
    assert_eq!(world[0].1.position, Vec2 { x: -499, y: 0 });
    assert_eq!(world[1].1.position, Vec2 { x: 499, y: 0 });
}

#[test]
fn static_body_survives_force_and_collisions_unchanged() {
    // a static wall under constant force, rammed by a dynamic circle over
    // many ticks: its velocity and position never move
    let mut wall = Rigidbody::new_static_shape(box_shape(20, 200), 800_000);
    wall.force = Vec2 { x: 12_345, y: -9_999 };
    let wall_pose = pose(50, 0);
    let mut world = vec![
        (wall, wall_pose),
        (dynamic_circle(10, 20, 600, 0, 500_000), pose(0, 0)),
    ];
    for _ in 0..120 {
        step(&mut world, DT);
        assert!(matches!(world[0].0.mass, Mass::Static));
        assert_eq!(world[0].0.linear_velocity, Vec2 { x: 0, y: 0 });
        assert_eq!(world[0].1.position, Vec2 { x: 50, y: 0 });
        assert_eq!(world[0].1.orientation, 0);
    }
    // the circle did reach the wall and bounced back
    assert!(world[1].0.linear_velocity.x < 0);
}

#[test]
fn sequential_pair_sweep_applies_contacts_in_index_order() {
    // three bodies in a row, the middle one overlapping both neighbours;
    // the (0,1) pair is resolved before (0,2) and (1,2) read velocities
    let mut world = vec![
        (dynamic_circle(10, 20, 100, 0, 0), pose(-30, 0)),
        (dynamic_circle(10, 20, 0, 0, 0), pose(0, 0)),
        (dynamic_circle(10, 20, -100, 0, 0), pose(30, 0)),
    ];
    step(&mut world, DT);
    // pair (0,1): van = (101, 0) . (-1, 0) < 0, inelastic stop: both at 50...
    // then pair (1,2) compares 50 against -101 and stops that pair too
    assert_eq!(world[0].0.linear_velocity, Vec2 { x: 50, y: 0 });
    assert_eq!(world[1].0.linear_velocity, Vec2 { x: -25, y: 0 });
    assert_eq!(world[2].0.linear_velocity, Vec2 { x: -25, y: 0 });
}
