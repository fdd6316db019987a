//! Game states: the playing state (`Ingame`) with its camera controls and
//! starting scene, and the pause state.  Each state maps the events it
//! receives to a transition and, for `Ingame`, to camera updates; the
//! surrounding loop owns the window and performs the transitions.

use crate::components::{CollisionCache, Player, Position, Solid, SolidV};
use crate::data::{Camera, SolidType};
use crate::shape::{Shape, ShapeV};
use crate::util::{v2, Vec2, SCALE, V2};
use vstd::prelude::*;

verus! {

/// How far one camera nudge moves the view: 16 pixels, in subpixel units.
pub const CAMERA_STEP: i64 = 57_600;

/// A key the states react to.
#[derive(Clone, Copy, PartialEq, Eq, Structural, Debug)]
pub enum GameKey {
    Escape,
    Return,
    Home,
    End,
    Delete,
    PageDown,
    R,
    Other,
}

/// A window event, reduced to what the states read.  `Resized` carries the
/// new window size in whole pixels.
#[derive(Clone, Copy, PartialEq, Eq, Structural, Debug)]
pub enum GameEvent {
    Closed,
    KeyPressed(GameKey),
    Resized(i64, i64),
    Other,
}

/// What a state asks of the surrounding loop: stay, quit, push the pause
/// state, or pop back to the previous state.
#[derive(Clone, Copy, PartialEq, Eq, Structural, Debug)]
pub enum Trans {
    Stay,
    Quit,
    Push,
    Pop,
}

/// What the playing state does with an event: the camera's translation and
/// size afterwards, and the transition.  Closing or `Escape` quits,
/// `Return` pauses, the four navigation keys nudge the view by
/// `CAMERA_STEP`, and a resize stores the new size.
pub open spec fn spec_ingame_event(tr: V2, sz: V2, event: GameEvent) -> (V2, V2, Trans) {
    match event {
        GameEvent::Closed => (tr, sz, Trans::Quit),
        GameEvent::KeyPressed(k) => match k {
            GameKey::Escape => (tr, sz, Trans::Quit),
            GameKey::Return => (tr, sz, Trans::Push),
            GameKey::Home => (v2(tr.x, tr.y - CAMERA_STEP as int), sz, Trans::Stay),
            GameKey::End => (v2(tr.x, tr.y + CAMERA_STEP as int), sz, Trans::Stay),
            GameKey::Delete => (v2(tr.x - CAMERA_STEP as int, tr.y), sz, Trans::Stay),
            GameKey::PageDown => (v2(tr.x + CAMERA_STEP as int, tr.y), sz, Trans::Stay),
            GameKey::R => (tr, sz, Trans::Stay),
            GameKey::Other => (tr, sz, Trans::Stay),
        },
        GameEvent::Resized(w, h) => (tr, v2(w * SCALE as int, h * SCALE as int), Trans::Stay),
        GameEvent::Other => (tr, sz, Trans::Stay),
    }
}

/// What the pause state does with an event: closing or `Escape` quits,
/// `Return` resumes.
pub open spec fn spec_pause_event(event: GameEvent) -> Trans {
    match event {
        GameEvent::Closed => Trans::Quit,
        GameEvent::KeyPressed(k) => match k {
            GameKey::Escape => Trans::Quit,
            GameKey::Return => Trans::Pop,
            _ => Trans::Stay,
        },
        _ => Trans::Stay,
    }
}

/// The bodies the playing state starts with, all of one scene: three
/// floors, a horizontally and a vertically moving platform, a slippery
/// floor, and two players.
pub struct Scene {
    pub positions: Vec<Position>,
    pub solids: Vec<Solid>,
    pub caches: Vec<CollisionCache>,
    pub players: Vec<Option<Player>>,
}

/// A static or kinematic scene body at rest apart from `velocity`.
pub open spec fn scene_static(id: int, friction: int, half: V2, velocity: V2) -> SolidV {
    SolidV {
        id,
        typ: SolidType::Solid,
        check_movement: false,
        gravity: false,
        friction,
        shape: ShapeV::Aabb { half },
        velocity,
        acceleration: v2(0, 0),
        old_position: v2(0, 0),
        old_velocity: v2(0, 0),
        old_acceleration: v2(0, 0),
    }
}

/// A player body: dynamic, under gravity, friction 50 pixels per second
/// squared, a 32 by 64 pixel box.
pub open spec fn scene_player(id: int) -> SolidV {
    SolidV {
        id,
        typ: SolidType::Solid,
        check_movement: true,
        gravity: true,
        friction: 180_000,
        shape: ShapeV::Aabb { half: v2(57_600, 115_200) },
        velocity: v2(0, 0),
        acceleration: v2(0, 0),
        old_position: v2(0, 0),
        old_velocity: v2(0, 0),
        old_acceleration: v2(0, 0),
    }
}

/// The starting scene's bodies, in order: a wide floor at the origin, two
/// more floors, the two moving platforms, the slippery floor, then the two
/// players.  All lengths in subpixel units (3600 to a pixel).
pub open spec fn spec_scene_solid(k: int) -> SolidV {
    if k == 0 {
        scene_static(0, 864_000, v2(1_080_000, 57_600), v2(0, 0))
    } else if k == 1 {
        scene_static(1, 864_000, v2(540_000, 57_600), v2(0, 0))
    } else if k == 2 {
        scene_static(2, 864_000, v2(540_000, 57_600), v2(0, 0))
    } else if k == 3 {
        scene_static(3, 1_800_000, v2(360_000, 28_800), v2(144_000, 0))
    } else if k == 4 {
        scene_static(4, 1_800_000, v2(72_000, 28_800), v2(0, -144_000))
    } else if k == 5 {
        scene_static(5, 108_000, v2(360_000, 57_600), v2(0, 0))
    } else if k == 6 {
        scene_player(6)
    } else {
        scene_player(7)
    }
}

/// The starting positions matching `spec_scene_solid`.
pub open spec fn spec_scene_position(k: int) -> V2 {
    if k == 0 {
        v2(0, 0)
    } else if k == 1 {
        v2(2_304_000, 1_728_000)
    } else if k == 2 {
        v2(720_000, 1_440_000)
    } else if k == 3 {
        v2(0, 900_000)
    } else if k == 4 {
        v2(1_800_000, 1_728_000)
    } else if k == 5 {
        v2(1_512_000, 1_296_000)
    } else if k == 6 {
        v2(1_800_000, 360_000)
    } else {
        v2(2_160_000, 360_000)
    }
}

/// The playing state.
pub struct Ingame;

impl Ingame {
    /// React to one event: possibly move or resize the camera, and say how
    /// the state stack should change, per `spec_ingame_event`.
    pub fn handle_event(&self, camera: &mut Camera, event: GameEvent) -> (t: Trans)
        requires
            -0x1_0000_0000 <= old(camera).translate@.x <= 0x1_0000_0000,
            -0x1_0000_0000 <= old(camera).translate@.y <= 0x1_0000_0000,
            (match event {
                GameEvent::Resized(w, h) => 0 <= w <= 0x1_0000_0000 && 0 <= h <= 0x1_0000_0000,
                _ => true,
            }),
        ensures
            final(camera).translate@ == spec_ingame_event(
                old(camera).translate@,
                old(camera).size@,
                event,
            ).0,
            final(camera).size@ == spec_ingame_event(
                old(camera).translate@,
                old(camera).size@,
                event,
            ).1,
            t == spec_ingame_event(old(camera).translate@, old(camera).size@, event).2,
    {
        match event {
            GameEvent::Closed => Trans::Quit,
            GameEvent::KeyPressed(k) => match k {
                GameKey::Escape => Trans::Quit,
                GameKey::Return => Trans::Push,
                GameKey::Home => {
                    camera.translate.y = camera.translate.y - CAMERA_STEP;
                    Trans::Stay
                },
                GameKey::End => {
                    camera.translate.y = camera.translate.y + CAMERA_STEP;
                    Trans::Stay
                },
                GameKey::Delete => {
                    camera.translate.x = camera.translate.x - CAMERA_STEP;
                    Trans::Stay
                },
                GameKey::PageDown => {
                    camera.translate.x = camera.translate.x + CAMERA_STEP;
                    Trans::Stay
                },
                GameKey::R => Trans::Stay,
                GameKey::Other => Trans::Stay,
            },
            GameEvent::Resized(w, h) => {
                camera.size.x = w * SCALE;
                camera.size.y = h * SCALE;
                Trans::Stay
            },
            GameEvent::Other => Trans::Stay,
        }
    }

    /// Build the starting scene: eight bodies as `spec_scene_solid` and
    /// `spec_scene_position` list them, zeroed caches, and the two player
    /// tags on the last two bodies.
    pub fn initial_scene(&self) -> (s: Scene)
        ensures
            s.positions@.len() == 8,
            s.solids@.len() == 8,
            s.caches@.len() == 8,
            s.players@.len() == 8,
            forall|k: int| 0 <= k < 8 ==> #[trigger] s.positions@[k]@ == spec_scene_position(k),
            forall|k: int| 0 <= k < 8 ==> #[trigger] s.solids@[k]@ == spec_scene_solid(k),
            forall|k: int|
                0 <= k < 8 ==> #[trigger] s.caches@[k]@ == crate::components::cache_zero(),
            s.players@[6] == Some(Player { id: 0 }),
            s.players@[7] == Some(Player { id: 1 }),
            forall|k: int| 0 <= k < 6 ==> #[trigger] s.players@[k] is None,
    {
        let mut positions: Vec<Position> = Vec::new();
        let mut solids: Vec<Solid> = Vec::new();
        let mut caches: Vec<CollisionCache> = Vec::new();
        let mut players: Vec<Option<Player>> = Vec::new();

        // A wide floor at the origin.
        positions.push(Position(Vec2 { x: 0, y: 0 }));
        solids.push(
            Solid::new(
                0,
                SolidType::Solid,
                false,
                false,
                864_000,
                Shape::Aabb { half: Vec2 { x: 1_080_000, y: 57_600 } },
            ),
        );
        // A floor high up on the right.
        positions.push(Position(Vec2 { x: 2_304_000, y: 1_728_000 }));
        solids.push(
            Solid::new(
                1,
                SolidType::Solid,
                false,
                false,
                864_000,
                Shape::Aabb { half: Vec2 { x: 540_000, y: 57_600 } },
            ),
        );
        // A floor in the middle.
        positions.push(Position(Vec2 { x: 720_000, y: 1_440_000 }));
        solids.push(
            Solid::new(
                2,
                SolidType::Solid,
                false,
                false,
                864_000,
                Shape::Aabb { half: Vec2 { x: 540_000, y: 57_600 } },
            ),
        );
        // A horizontally moving platform.
        positions.push(Position(Vec2 { x: 0, y: 900_000 }));
        let mut platform_h = Solid::new(
            3,
            SolidType::Solid,
            false,
            false,
            1_800_000,
            Shape::Aabb { half: Vec2 { x: 360_000, y: 28_800 } },
        );
        platform_h.velocity = Vec2 { x: 144_000, y: 0 };
        solids.push(platform_h);
        // A vertically moving platform.
        positions.push(Position(Vec2 { x: 1_800_000, y: 1_728_000 }));
        let mut platform_v = Solid::new(
            4,
            SolidType::Solid,
            false,
            false,
            1_800_000,
            Shape::Aabb { half: Vec2 { x: 72_000, y: 28_800 } },
        );
        platform_v.velocity = Vec2 { x: 0, y: -144_000 };
        solids.push(platform_v);
        // A slippery floor.
        positions.push(Position(Vec2 { x: 1_512_000, y: 1_296_000 }));
        solids.push(
            Solid::new(
                5,
                SolidType::Solid,
                false,
                false,
                108_000,
                Shape::Aabb { half: Vec2 { x: 360_000, y: 57_600 } },
            ),
        );
        // The two players.
        positions.push(Position(Vec2 { x: 1_800_000, y: 360_000 }));
        solids.push(
            Solid::new(
                6,
                SolidType::Solid,
                true,
                true,
                180_000,
                Shape::Aabb { half: Vec2 { x: 57_600, y: 115_200 } },
            ),
        );
        positions.push(Position(Vec2 { x: 2_160_000, y: 360_000 }));
        solids.push(
            Solid::new(
                7,
                SolidType::Solid,
                true,
                true,
                180_000,
                Shape::Aabb { half: Vec2 { x: 57_600, y: 115_200 } },
            ),
        );

        let mut k: usize = 0;
        while k < 8
            invariant
                caches@.len() == k,
                k <= 8,
                forall|j: int|
                    0 <= j < k ==> #[trigger] caches@[j]@ == crate::components::cache_zero(),
            decreases 8 - k,
        {
            caches.push(CollisionCache::new());
            k = k + 1;
        }
        let mut k: usize = 0;
        while k < 6
            invariant
                players@.len() == k,
                k <= 6,
                forall|j: int| 0 <= j < k ==> #[trigger] players@[j] is None,
            decreases 6 - k,
        {
            players.push(None);
            k = k + 1;
        }
        players.push(Some(Player { id: 0 }));
        players.push(Some(Player { id: 1 }));

        Scene { positions, solids, caches, players }
    }
}

/// The pause state.
pub struct Pause;

impl Pause {
    /// React to one event while paused, per `spec_pause_event`.
    pub fn handle_event(&self, event: GameEvent) -> (t: Trans)
        ensures
            t == spec_pause_event(event),
    {
        match event {
            GameEvent::Closed => Trans::Quit,
            GameEvent::KeyPressed(k) => match k {
                GameKey::Escape => Trans::Quit,
                GameKey::Return => Trans::Pop,
                _ => Trans::Stay,
            },
            _ => Trans::Stay,
        }
    }
}

} // verus!
