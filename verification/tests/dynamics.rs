//! Body construction, validation, integration, and impulse resolution.

use rigid2d::collision_primitives::{CircleCollider, CollisionData, Primitives, AABB};
use rigid2d::math::{FIXED_ONE, WORLD_MAX};
use rigid2d::resolve::resolve_collision;
use rigid2d::rigidbody::{body_in_bounds, integrate, Mass, Restitution, Rigidbody};
use rigid2d::vec2::{Pose, Vec2};
use rigid2d::step::world_in_bounds;
use rigid2d::PhysicsError;

fn pose(x: i64, y: i64) -> Pose {
    Pose { position: Vec2 { x, y }, orientation: 0 }
}

fn circle_shape(radius: i64) -> Primitives {
    Primitives::Circle(CircleCollider::new(radius).unwrap())
}

fn dynamic_circle(mass: i64, radius: i64, vx: i64, vy: i64, restitution: i64) -> Rigidbody {
    Rigidbody::new_shape_with_velocity(mass, radius, circle_shape(radius), Vec2 { x: vx, y: vy }, restitution)
        .unwrap()
}

#[test]
fn invalid_shapes_are_rejected() {
    assert_eq!(CircleCollider::new(0).unwrap_err(), PhysicsError::InvalidShape);
    assert_eq!(CircleCollider::new(-20).unwrap_err(), PhysicsError::InvalidShape);
    assert!(CircleCollider::new(20).is_ok());
    // a full extent of 1 halves to a zero half-extent
    assert_eq!(AABB::new(1, 10).unwrap_err(), PhysicsError::InvalidShape);
    assert_eq!(AABB::new(10, 0).unwrap_err(), PhysicsError::InvalidShape);
    assert!(AABB::new(2, 2).is_ok());
}

#[test]
fn invalid_mass_is_rejected() {
    let r = Rigidbody::new_shape_with_velocity(0, 20, circle_shape(20), Vec2 { x: 0, y: 0 }, 0);
    assert_eq!(r.unwrap_err(), PhysicsError::InvalidMass);
    let r = Rigidbody::new_shape_with_velocity(-5, 20, circle_shape(20), Vec2 { x: 0, y: 0 }, 0);
    assert_eq!(r.unwrap_err(), PhysicsError::InvalidMass);
}

#[test]
fn restitution_is_clamped_at_construction() {
    assert_eq!(Restitution::new(2 * FIXED_ONE).value(), FIXED_ONE);
    assert_eq!(Restitution::new(-3).value(), 0);
    assert_eq!(Restitution::new(250_000).value(), 250_000);
    assert_eq!(Restitution::default().value(), FIXED_ONE);
}

#[test]
fn combined_restitution_takes_the_minimum() {
    let a = Restitution::new(800_000);
    let b = Restitution::new(200_000);
    assert_eq!(a.resolve_restitutions(&b), 200_000);
    assert_eq!(b.resolve_restitutions(&a), 200_000);
}

#[test]
fn moment_of_inertia_is_half_mass_radius_squared() {
    let body = dynamic_circle(10, 20, 0, 0, 0);
    assert_eq!(body.moment, 10 * 20 * 20 / 2);
}

#[test]
fn static_body_ignores_force_under_integration() {
    let mut body = Rigidbody::new_static_shape(circle_shape(20), 800_000);
    body.force = Vec2 { x: 5_000, y: -7_000 };
    let mut p = pose(3, 4);
    integrate(&mut body, &mut p, 16_667);
    assert_eq!(body.linear_velocity, Vec2 { x: 0, y: 0 });
    assert_eq!(p.position, Vec2 { x: 3, y: 4 });
}

#[test]
fn dynamic_body_integrates_force_then_position() {
    let mut body = dynamic_circle(10, 20, 60, 0, 0);
    body.force = Vec2 { x: 100, y: 0 };
    let mut p = pose(0, 0);
    integrate(&mut body, &mut p, 16_667);
    // velocity += force / mass = 10; position += 70 * dt = 1.16... -> 1
    assert_eq!(body.linear_velocity, Vec2 { x: 70, y: 0 });
    assert_eq!(p.position, Vec2 { x: 1, y: 0 });
}

/// The contact the overlapping head-on circle pairs below produce: the
/// normal points from the second body toward the first, along -x.
fn head_on_contact(a: &Rigidbody, b: &Rigidbody) -> CollisionData {
    let (ca, cb) = match (&a.shape, &b.shape) {
        (Primitives::Circle(ca), Primitives::Circle(cb)) => (*ca, *cb),
        _ => panic!("expected circles"),
    };
    ca.is_colliding_with_circle(&pose(-15, 0), &cb, &pose(15, 0))
        .unwrap()
}

#[test]
fn inelastic_head_on_collision_zeroes_both_velocities() {
    // restitution 0, equal masses, approaching at (100, 0) / (-100, 0):
    // both end with zero velocity along the normal
    let mut a = dynamic_circle(10, 20, 100, 0, 0);
    let mut b = dynamic_circle(10, 20, -100, 0, 0);
    let contact = head_on_contact(&a, &b);
    assert_eq!(contact.unit_normal.x, -FIXED_ONE);
    resolve_collision(&contact, &mut a, &mut b);
    assert_eq!(a.linear_velocity, Vec2 { x: 0, y: 0 });
    assert_eq!(b.linear_velocity, Vec2 { x: 0, y: 0 });
}

#[test]
fn elastic_equal_mass_head_on_collision_swaps_velocities() {
    // restitution 1, equal masses: the velocities are exactly exchanged
    let mut a = dynamic_circle(10, 20, 100, 0, FIXED_ONE);
    let mut b = dynamic_circle(10, 20, -100, 0, FIXED_ONE);
    let contact = head_on_contact(&a, &b);
    resolve_collision(&contact, &mut a, &mut b);
    assert_eq!(a.linear_velocity, Vec2 { x: -100, y: 0 });
    assert_eq!(b.linear_velocity, Vec2 { x: 100, y: 0 });
}

#[test]
fn separating_pair_is_left_untouched() {
    // overlapping in position but already moving apart: resolution must not
    // inject energy
    let mut a = dynamic_circle(10, 20, -50, 0, FIXED_ONE);
    let mut b = dynamic_circle(10, 20, 50, 0, FIXED_ONE);
    let contact = head_on_contact(&a, &b);
    resolve_collision(&contact, &mut a, &mut b);
    assert_eq!(a.linear_velocity, Vec2 { x: -50, y: 0 });
    assert_eq!(b.linear_velocity, Vec2 { x: 50, y: 0 });
}

#[test]
fn tangential_velocity_is_unaffected() {
    // the normal is along x; y components ride through the impulse unchanged
    let mut a = dynamic_circle(10, 20, 100, 33, 0);
    let mut b = dynamic_circle(10, 20, -100, -44, 0);
    let contact = head_on_contact(&a, &b);
    resolve_collision(&contact, &mut a, &mut b);
    assert_eq!(a.linear_velocity, Vec2 { x: 0, y: 33 });
    assert_eq!(b.linear_velocity, Vec2 { x: 0, y: -44 });
}

#[test]
fn static_partner_reflects_a_dynamic_body() {
    // restitution 1 against an immovable wall: the velocity reverses
    let mut a = dynamic_circle(10, 20, 100, 0, FIXED_ONE);
    let mut w = Rigidbody::new_static_shape(circle_shape(20), FIXED_ONE);
    // the wall sits to the right: normal points from the wall toward `a`
    let ca = match &a.shape {
        Primitives::Circle(c) => *c,
        _ => unreachable!(),
    };
    let cw = match &w.shape {
        Primitives::Circle(c) => *c,
        _ => unreachable!(),
    };
    let contact = ca
        .is_colliding_with_circle(&pose(-15, 0), &cw, &pose(15, 0))
        .unwrap();
    resolve_collision(&contact, &mut a, &mut w);
    assert_eq!(a.linear_velocity, Vec2 { x: -100, y: 0 });
    assert_eq!(w.linear_velocity, Vec2 { x: 0, y: 0 });
}

#[test]
fn two_static_bodies_are_left_untouched() {
    let mut a = Rigidbody::new_static_shape(circle_shape(20), 0);
    let mut b = Rigidbody::new_static_shape(circle_shape(20), 0);
    let ca = match &a.shape {
        Primitives::Circle(c) => *c,
        _ => unreachable!(),
    };
    let contact = ca
        .is_colliding_with_circle(&pose(-15, 0), &ca.clone(), &pose(15, 0))
        .unwrap();
    resolve_collision(&contact, &mut a, &mut b);
    assert_eq!(a.linear_velocity, Vec2 { x: 0, y: 0 });
    assert_eq!(b.linear_velocity, Vec2 { x: 0, y: 0 });
    assert!(matches!(a.mass, Mass::Static));
}

#[test]
fn unequal_masses_share_the_impulse_by_inverse_mass() {
    // masses 10 and 30 approaching head-on at +/-100, restitution 0:
    // impulse j = 200 / (1/10 + 1/30) = 1500; a gains -150, b gains +50
    let mut a = dynamic_circle(10, 20, 100, 0, 0);
    let mut b = dynamic_circle(30, 20, -100, 0, 0);
    let contact = head_on_contact(&a, &b);
    resolve_collision(&contact, &mut a, &mut b);
    assert_eq!(a.linear_velocity, Vec2 { x: -50, y: 0 });
    assert_eq!(b.linear_velocity, Vec2 { x: -50, y: 0 });
}

#[test]
fn bounds_checks_accept_constructed_bodies_and_reject_tampered_ones() {
    let good = dynamic_circle(10, 20, 100, 0, 0);
    assert!(body_in_bounds(&good));

    let mut tampered = good;
    tampered.linear_velocity = Vec2 { x: i64::MAX, y: 0 };
    assert!(!body_in_bounds(&tampered));

    let mut bad_shape = good;
    bad_shape.shape = Primitives::Circle(CircleCollider { radius: -1 });
    assert!(!body_in_bounds(&bad_shape));
}

#[test]
fn world_bounds_check_covers_every_entry() {
    let mut world = vec![
        (dynamic_circle(10, 20, 100, 0, 0), pose(0, 0)),
        (dynamic_circle(10, 20, -100, 0, 0), pose(100, 0)),
    ];
    assert!(world_in_bounds(&world));
    world[1].1.position.x = i64::MIN;
    assert!(!world_in_bounds(&world));
}

#[test]
fn integration_saturates_at_the_world_bound() {
    let mut body = dynamic_circle(1, 20, WORLD_MAX, 0, 0);
    body.force = Vec2 { x: 5, y: 0 };
    let mut p = pose(0, 0);
    integrate(&mut body, &mut p, 16_667);
    // the velocity increment saturates; the position moves by v * dt
    assert_eq!(body.linear_velocity.x, WORLD_MAX);
    assert_eq!(p.position.x, WORLD_MAX * 16_667 / 1_000_000);
}
