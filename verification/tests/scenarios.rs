//! End-to-end scenarios of the physics core, at dt = 1/60 s (60 subpixel
//! units of a second) and the default constants.  One pixel is 3600
//! subpixel units.

use platformer_core::components::{CollisionCache, Position, Solid};
use platformer_core::data::SolidType;
use platformer_core::shape::Shape;
use platformer_core::systems::{Physics, PlayerInput, InputSnapshot};
use platformer_core::components::Player;
use platformer_core::util::Vec2;

const DT: i64 = 60;
const PX: i64 = 3600;

fn body(
    id: u64,
    check_movement: bool,
    gravity: bool,
    friction: i64,
    half_x: i64,
    half_y: i64,
    x: i64,
    y: i64,
    vx: i64,
    vy: i64,
) -> (Position, Solid, CollisionCache) {
    let mut s = Solid::new(
        id,
        SolidType::Solid,
        check_movement,
        gravity,
        friction,
        Shape::Aabb { half: Vec2 { x: half_x, y: half_y } },
    );
    s.velocity = Vec2 { x: vx, y: vy };
    (Position(Vec2 { x, y }), s, CollisionCache::new())
}

struct World {
    positions: Vec<Position>,
    solids: Vec<Solid>,
    caches: Vec<CollisionCache>,
}

impl World {
    fn new(bodies: Vec<(Position, Solid, CollisionCache)>) -> World {
        let mut w = World { positions: Vec::new(), solids: Vec::new(), caches: Vec::new() };
        for (p, s, c) in bodies {
            w.positions.push(p);
            w.solids.push(s);
            w.caches.push(c);
        }
        w
    }

    fn step(&mut self, n: usize) {
        let physics = Physics::new();
        for _ in 0..n {
            physics.step(&mut self.positions, &mut self.solids, &mut self.caches, DT);
        }
    }
}

/// Free fall: a body under gravity alone.  After 60 ticks (one second) the
/// velocity is 595 px/s — the Verlet warm-up halves the very first tick's
/// gain of 10 px/s — and the fall is 295.083 px.
#[test]
fn free_fall_one_second() {
    // The falling body resolves against nothing, so it may as well be the
    // only body; with no contacts its cache stays zero every tick.
    let mut w = World::new(vec![body(0, false, true, 0, 57_600, 115_200, 0, 0, 0, 0)]);
    w.step(60);
    assert_eq!(w.positions[0].0.x, 0);
    assert_eq!(w.positions[0].0.y, 1_062_300);
    assert_eq!(w.solids[0].velocity.x, 0);
    assert_eq!(w.solids[0].velocity.y, 2_142_000);
    // Within the coarse expectations: 600 +- 5 px/s and roughly 300 px.
    assert!((w.solids[0].velocity.y - 600 * PX).abs() <= 5 * PX);
    assert!((w.positions[0].0.y - 300 * PX).abs() <= 5 * PX);
}

/// Landing: a dynamic 32x64 px box dropped from y = 350 px onto a static
/// floor whose top is at 384 px settles at exactly y = 352 px with zero
/// velocity, standing on ground.
#[test]
fn landing_settles_on_floor() {
    let mut w = World::new(vec![
        body(0, true, true, 0, 57_600, 115_200, 0, 350 * PX, 0, 0),
        body(1, false, false, 864_000, 540_000, 57_600, 0, 400 * PX, 0, 0),
    ]);
    w.step(60);
    assert_eq!(w.positions[0].0.y, 352 * PX);
    assert_eq!(w.solids[0].velocity.y, 0);
    assert_eq!(w.solids[0].velocity.x, 0);
    assert!(Physics::on_ground(&w.caches[0]));
    assert!(!Physics::on_ground(&w.caches[1]));
}

/// Friction stop: a body sliding at 200 px/s over a floor of friction 240
/// px/s^2 loses (20 + 240) / 60 px/s per tick, reaches zero on tick 47 and
/// never goes negative.
#[test]
fn friction_stops_slider() {
    let mut w = World::new(vec![
        body(0, true, true, 0, 57_600, 115_200, 0, 1_267_200, 200 * PX, 0),
        body(1, false, false, 864_000, 1_080_000, 57_600, 0, 1_440_000, 0, 0),
    ]);
    for _ in 0..46 {
        w.step(1);
        assert!(w.solids[0].velocity.x > 0);
    }
    // 200 px/s minus 46 ticks of 15600 subunits each.
    assert_eq!(w.solids[0].velocity.x, 2_400);
    w.step(1);
    assert_eq!(w.solids[0].velocity.x, 0);
    w.step(10);
    assert_eq!(w.solids[0].velocity.x, 0);
}

/// Two-body split: identical boxes driving into each other at +-50 px/s
/// with 4 px of overlap each absorb exactly half the correction (2 px) and
/// swap their normal velocities (less one tick of air friction).
#[test]
fn two_body_split_is_even() {
    let mut w = World::new(vec![
        body(0, true, false, 0, 57_600, 57_600, 0, 0, 180_000, 0),
        body(1, true, false, 0, 57_600, 57_600, 100_800, 0, -180_000, 0),
    ]);
    // The split is a property of the resolver alone, so resolve the
    // overlapping state directly instead of integrating into it.
    platformer_core::systems::resolve(&mut w.positions, &mut w.solids, &mut w.caches, DT);
    assert_eq!(w.caches[0].position_resolve.x, -7_200);
    assert_eq!(w.caches[1].position_resolve.x, 7_200);
    assert_eq!(w.caches[0].velocity_resolve.x, -360_000);
    assert_eq!(w.caches[1].velocity_resolve.x, 360_000);
    assert_eq!(w.positions[0].0.x, -7_200);
    assert_eq!(w.positions[1].0.x, 108_000);
    // 50 px/s swapped, then one tick of air friction (1/3 px/s).
    assert_eq!(w.solids[0].velocity.x, -178_800);
    assert_eq!(w.solids[1].velocity.x, 178_800);
}

/// Moving platform: a body resting on a kinematic floor moving at 40 px/s
/// inherits the floor's displacement of 40/60 px per tick through its
/// position resolve, with zero velocity of its own; the platform itself is
/// never slowed or moved by the resolver.
#[test]
fn moving_platform_carries_rider() {
    let mut w = World::new(vec![
        body(0, true, true, 0, 57_600, 115_200, 0, 1_296_000, 0, 0),
        body(1, false, false, 1_800_000, 1_080_000, 28_800, 0, 1_440_000, 144_000, 0),
    ]);
    w.step(1);
    assert_eq!(w.positions[0].0.x, 2_400);
    assert!(Physics::on_ground(&w.caches[0]));
    w.step(1);
    assert_eq!(w.positions[0].0.x, 4_800);
    // The kinematic platform moved by exactly its own velocity...
    assert_eq!(w.positions[1].0.x, 4_800);
    // ...and the resolver never touched it.
    assert_eq!(w.solids[1].velocity.x, 144_000);
    assert_eq!(w.caches[1].position_resolve.x, 0);
    assert_eq!(w.caches[1].velocity_resolve.x, 0);
}

/// Jump gating: in the landed state a jump intent sets the jump velocity;
/// a second intent in the same tick is accepted again; once airborne (no
/// upward resolve) a further intent is ignored.
#[test]
fn jump_gated_on_ground() {
    let mut w = World::new(vec![
        body(0, true, true, 180_000, 57_600, 115_200, 0, 350 * PX, 0, 0),
        body(1, false, false, 864_000, 540_000, 57_600, 0, 400 * PX, 0, 0),
    ]);
    w.step(40);
    assert!(Physics::on_ground(&w.caches[0]));
    let adapter = PlayerInput;
    let player = Player { id: 0 };
    let jump = InputSnapshot { jump: true, left: false, right: false };
    adapter.apply(&player, &jump, &mut w.solids[0], &w.caches[0]);
    assert_eq!(w.solids[0].velocity.y, -1_512_000);
    // A second intent before the next tick still sees the ground signal.
    adapter.apply(&player, &jump, &mut w.solids[0], &w.caches[0]);
    assert_eq!(w.solids[0].velocity.y, -1_512_000);
    w.step(2);
    assert!(!Physics::on_ground(&w.caches[0]));
    assert_eq!(w.caches[0].position_resolve.y, 0);
    let before = w.solids[0].velocity.y;
    adapter.apply(&player, &jump, &mut w.solids[0], &w.caches[0]);
    assert_eq!(w.solids[0].velocity.y, before);
}
