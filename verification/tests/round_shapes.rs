//! The resolver driven through non-box shapes, and the degenerate cases
//! the resolver defines: an empty store, and contacts of exactly zero
//! depth.

use platformer_core::components::{CollisionCache, Position, Solid};
use platformer_core::data::SolidType;
use platformer_core::shape::Shape;
use platformer_core::systems::{resolve, Physics};
use platformer_core::util::Vec2;

const DT: i64 = 60;

fn v(x: i64, y: i64) -> Vec2 {
    Vec2 { x, y }
}

fn shaped(
    id: u64,
    check_movement: bool,
    gravity: bool,
    shape: Shape,
    x: i64,
    y: i64,
    vx: i64,
    vy: i64,
) -> (Position, Solid, CollisionCache) {
    let mut s = Solid::new(id, SolidType::Solid, check_movement, gravity, 0, shape);
    s.velocity = v(vx, vy);
    s.old_position = v(x, y);
    (Position(v(x, y)), s, CollisionCache::new())
}

#[test]
fn empty_store_steps_quietly() {
    let mut positions: Vec<Position> = Vec::new();
    let mut solids: Vec<Solid> = Vec::new();
    let mut caches: Vec<CollisionCache> = Vec::new();
    Physics::new().step(&mut positions, &mut solids, &mut caches, DT);
    assert!(positions.is_empty());
}

#[test]
fn zero_depth_contact_is_no_contact() {
    // Boxes exactly touching: the query reports depth zero, and the
    // resolver treats that as no contact at all — no friction either.
    let mut w = vec![
        shaped(0, true, false, Shape::Aabb { half: v(3_600, 3_600) }, 0, 0, 0, 0),
        shaped(1, false, false, Shape::Aabb { half: v(3_600, 3_600) }, 7_200, 0, 0, 0),
    ];
    let (mut positions, mut solids, mut caches): (Vec<_>, Vec<_>, Vec<_>) = (
        w.iter().map(|b| b.0).collect(),
        w.iter().map(|b| b.1).collect(),
        w.drain(..).map(|b| b.2).collect(),
    );
    resolve(&mut positions, &mut solids, &mut caches, DT);
    assert_eq!(caches[0].position_resolve, v(0, 0));
    assert_eq!(caches[0].velocity_resolve, v(0, 0));
    assert_eq!(caches[0].friction_total, 0);
    assert_eq!(positions[0].0, v(0, 0));
}

#[test]
fn circle_settles_on_halfplane_floor() {
    // A ball under gravity over a half-plane floor whose boundary runs at
    // y = 400 px: it comes to rest with its center one radius above the
    // boundary, standing on ground.
    let mut w = vec![
        shaped(0, true, true, Shape::Circle { radius: 57_600 }, 0, 1_350_000, 0, 0),
        shaped(
            1,
            false,
            false,
            Shape::HalfPlane { normal: v(0, -3_600) },
            0,
            1_440_000,
            0,
            0,
        ),
    ];
    let (mut positions, mut solids, mut caches): (Vec<_>, Vec<_>, Vec<_>) = (
        w.iter().map(|b| b.0).collect(),
        w.iter().map(|b| b.1).collect(),
        w.drain(..).map(|b| b.2).collect(),
    );
    let physics = Physics::new();
    for _ in 0..60 {
        physics.step(&mut positions, &mut solids, &mut caches, DT);
    }
    assert_eq!(positions[0].0.y, 1_382_400);
    assert_eq!(solids[0].velocity, v(0, 0));
    assert!(Physics::on_ground(&caches[0]));
    // The half-plane itself never moves.
    assert_eq!(positions[1].0, v(0, 1_440_000));
}

#[test]
fn circle_pair_resolves_along_diagonal() {
    // Two balls of radius 3600 whose centers sit 5000 apart on a 3-4-5
    // diagonal, the first driving straight along it at 5 px/s, the second
    // at rest: the first absorbs the whole 2200 of depth and hands its
    // velocity over.
    let mut w = vec![
        shaped(0, true, false, Shape::Circle { radius: 3_600 }, 0, 0, 10_800, 14_400),
        shaped(1, true, false, Shape::Circle { radius: 3_600 }, 3_000, 4_000, 0, 0),
    ];
    let (mut positions, mut solids, mut caches): (Vec<_>, Vec<_>, Vec<_>) = (
        w.iter().map(|b| b.0).collect(),
        w.iter().map(|b| b.1).collect(),
        w.drain(..).map(|b| b.2).collect(),
    );
    resolve(&mut positions, &mut solids, &mut caches, DT);
    // The mover takes the full depth, split along the unit normal
    // (2160, 2880): 2200 * (3/5, 4/5).
    assert_eq!(caches[0].position_resolve, v(-1_320, -1_760));
    assert_eq!(caches[1].position_resolve, v(0, 0));
    assert_eq!(positions[0].0, v(-1_320, -1_760));
    assert_eq!(positions[1].0, v(3_000, 4_000));
    // Its closing velocity vanishes entirely; the other body inherits it,
    // less one tick of air friction.
    assert_eq!(solids[0].velocity, v(0, 0));
    assert_eq!(solids[1].velocity, v(10_080, 13_440));
}
