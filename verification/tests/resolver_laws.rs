//! Concrete instances of the resolver's laws: idleness at separation, the
//! identity skip, the static-wall guarantee, the split symmetry, and the
//! integrator's acceleration handling.

use platformer_core::components::{CollisionCache, Position, Solid};
use platformer_core::data::SolidType;
use platformer_core::shape::Shape;
use platformer_core::systems::{position_share, resolve, Physics, GRAVITY};
use platformer_core::util::Vec2;

const DT: i64 = 60;

fn v(x: i64, y: i64) -> Vec2 {
    Vec2 { x, y }
}

fn dynamic_box(id: u64, x: i64, y: i64, vx: i64) -> (Position, Solid, CollisionCache) {
    let mut s = Solid::new(
        id,
        SolidType::Solid,
        true,
        false,
        0,
        Shape::Aabb { half: v(57_600, 57_600) },
    );
    s.velocity = v(vx, 0);
    (Position(v(x, y)), s, CollisionCache::new())
}

fn static_box(id: u64, x: i64, y: i64) -> (Position, Solid, CollisionCache) {
    let s = Solid::new(
        id,
        SolidType::Solid,
        false,
        false,
        0,
        Shape::Aabb { half: v(57_600, 57_600) },
    );
    (Position(v(x, y)), s, CollisionCache::new())
}

#[test]
fn separated_bodies_keep_integrator_state() {
    let (p0, s0, c0) = dynamic_box(0, 0, 0, 3_600);
    let (p1, s1, c1) = dynamic_box(1, 10_000_000, 0, 0);
    let mut positions = vec![p0, p1];
    let mut solids = vec![s0, s1];
    let mut caches = vec![c0, c1];
    Physics::new().step(&mut positions, &mut solids, &mut caches, DT);
    // Both caches zero: the resolver contributed nothing.
    assert_eq!(caches[0].position_resolve, v(0, 0));
    assert_eq!(caches[0].velocity_resolve, v(0, 0));
    assert_eq!(caches[0].friction_total, 0);
    assert_eq!(caches[1].position_resolve, v(0, 0));
    // Position is the integrator's alone: 1 px/s for 1/60 s.
    assert_eq!(positions[0].0, v(60, 0));
    // Velocity differs from the integrator's only by the ambient friction.
    assert_eq!(solids[0].velocity, v(2_400, 0));
}

#[test]
fn duplicate_identity_changes_nothing() {
    let (p0, s0, c0) = dynamic_box(0, 0, 0, 180_000);
    let (p1, s1, c1) = static_box(1, 100_800, 0);
    let mut positions = vec![p0, p1];
    let mut solids = vec![s0, s1];
    let mut caches = vec![c0, c1];
    resolve(&mut positions, &mut solids, &mut caches, DT);
    let plain_cache = caches[0];

    // The same pass with a copy of body 0 (same identity) added: body 0's
    // aggregate is unchanged, because contacts are skipped by identity.
    let (q0, t0, d0) = dynamic_box(0, 0, 0, 180_000);
    let (q1, t1, d1) = static_box(1, 100_800, 0);
    let (q2, t2, d2) = dynamic_box(0, 0, 0, 180_000);
    let mut positions2 = vec![q0, q1, q2];
    let mut solids2 = vec![t0, t1, t2];
    let mut caches2 = vec![d0, d1, d2];
    resolve(&mut positions2, &mut solids2, &mut caches2, DT);
    assert_eq!(caches2[0], plain_cache);
}

#[test]
fn static_body_is_a_wall() {
    // A dynamic body pressed into a static one from each side: the static
    // body's state never changes, however many contacts it has.
    let (p0, s0, c0) = dynamic_box(0, -100_800, 0, 180_000);
    let (p1, s1, c1) = static_box(1, 0, 0);
    let (p2, s2, c2) = dynamic_box(2, 100_800, 0, -180_000);
    let mut positions = vec![p0, p1, p2];
    let mut solids = vec![s0, s1, s2];
    let mut caches = vec![c0, c1, c2];
    resolve(&mut positions, &mut solids, &mut caches, DT);
    assert_eq!(positions[1].0, v(0, 0));
    assert_eq!(solids[1].velocity, v(0, 0));
    assert_eq!(caches[1].position_resolve, v(0, 0));
    // The dynamic bodies were pushed out (a static partner absorbs
    // nothing, so each takes its full overlap).
    assert_eq!(positions[0].0.x, -115_200);
    assert_eq!(positions[2].0.x, 115_200);
}

#[test]
fn split_ratio_is_complementary() {
    // Both moving: shares are proportional and sum to the full depth.
    assert_eq!(position_share(3, 5, 1_000), 375);
    assert_eq!(position_share(5, 3, 1_000), 625);
    // Only one side moving: it takes the whole depth.
    assert_eq!(position_share(5, 0, 100), 100);
    assert_eq!(position_share(0, 5, 100), 0);
    // Neither moving: the ratio is one on both sides.
    assert_eq!(position_share(0, 0, 77), 77);
}

#[test]
fn acceleration_resets_each_tick() {
    let (p0, mut s0, c0) = dynamic_box(0, 0, 0, 0);
    s0.gravity = true;
    s0.acceleration = v(7_200, 0);
    let mut positions = vec![p0];
    let mut solids = vec![s0];
    let mut caches = vec![c0];
    Physics::new().step(&mut positions, &mut solids, &mut caches, DT);
    assert_eq!(solids[0].acceleration, v(0, 0));
    // The acceleration used this tick, gravity included, is retained.
    assert_eq!(solids[0].old_acceleration, v(7_200, GRAVITY));
}
