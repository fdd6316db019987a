//! The per-body components: world position, movement state (`Solid`), the
//! resolver's per-tick scratch (`CollisionCache`), and the player tag.

use crate::data::SolidType;
use crate::shape::{shape_wf, Shape, ShapeV};
use crate::util::{v2, v2_in_range, Vec2, V2};
use vstd::prelude::*;

verus! {

/// A body's centroid in world space, in subpixel units.
#[derive(Clone, Copy, PartialEq, Eq, Structural, Debug)]
pub struct Position(pub Vec2);

impl View for Position {
    type V = V2;

    open spec fn view(&self) -> V2 {
        self.0@
    }
}

/// Mathematical model of a `Solid`.
pub ghost struct SolidV {
    pub id: int,
    pub typ: SolidType,
    pub check_movement: bool,
    pub gravity: bool,
    pub friction: int,
    pub shape: ShapeV,
    pub velocity: V2,
    pub acceleration: V2,
    pub old_position: V2,
    pub old_velocity: V2,
    pub old_acceleration: V2,
}

/// A body that takes part in physics: its shape, flags, friction, and
/// movement state.  `id` is the body's stable identity; the resolver uses it
/// to skip a body's contact with itself.
#[derive(Clone, Copy, PartialEq, Eq, Structural, Debug)]
pub struct Solid {
    /// Stable identity; distinct bodies carry distinct ids.
    pub id: u64,
    pub typ: SolidType,
    /// True for dynamic bodies, which the resolver corrects; false for
    /// static or kinematic bodies, which generate contacts for others but
    /// are never themselves corrected.
    pub check_movement: bool,
    /// If true, the integrator adds gravity each step (the world is y-down).
    pub gravity: bool,
    /// Additive contribution to the friction seen by bodies touching this
    /// one, in subpixel units per second squared; nonnegative.
    pub friction: i64,
    pub shape: Shape,
    pub velocity: Vec2,
    /// Transient force accumulator, cleared at the end of each integration.
    pub acceleration: Vec2,
    /// Position before this step's integration; moving statics transport
    /// resting dynamics by the difference.
    pub old_position: Vec2,
    pub old_velocity: Vec2,
    /// Acceleration used by the previous step, for the Verlet velocity rule.
    pub old_acceleration: Vec2,
}

impl View for Solid {
    type V = SolidV;

    open spec fn view(&self) -> SolidV {
        SolidV {
            id: self.id as int,
            typ: self.typ,
            check_movement: self.check_movement,
            gravity: self.gravity,
            friction: self.friction as int,
            shape: self.shape@,
            velocity: self.velocity@,
            acceleration: self.acceleration@,
            old_position: self.old_position@,
            old_velocity: self.old_velocity@,
            old_acceleration: self.old_acceleration@,
        }
    }
}

/// Well-formed under bound `b`: friction nonnegative, shape well-formed, and
/// every movement vector within `b`.
pub open spec fn solid_wf(s: SolidV, b: int) -> bool {
    &&& 0 <= s.friction <= b
    &&& shape_wf(s.shape, b)
    &&& v2_in_range(s.velocity, b)
    &&& v2_in_range(s.acceleration, b)
    &&& v2_in_range(s.old_position, b)
    &&& v2_in_range(s.old_velocity, b)
    &&& v2_in_range(s.old_acceleration, b)
}

impl Solid {
    /// A body at rest: all movement state zero.
    pub fn new(id: u64, typ: SolidType, check_movement: bool, gravity: bool, friction: i64, shape: Shape) -> (s: Solid)
        requires
            0 <= friction,
        ensures
            s@ == (SolidV {
                id: id as int,
                typ,
                check_movement,
                gravity,
                friction: friction as int,
                shape: shape@,
                velocity: v2(0, 0),
                acceleration: v2(0, 0),
                old_position: v2(0, 0),
                old_velocity: v2(0, 0),
                old_acceleration: v2(0, 0),
            }),
    {
        Solid {
            id,
            typ,
            check_movement,
            gravity,
            friction,
            shape,
            velocity: Vec2 { x: 0, y: 0 },
            acceleration: Vec2 { x: 0, y: 0 },
            old_position: Vec2 { x: 0, y: 0 },
            old_velocity: Vec2 { x: 0, y: 0 },
            old_acceleration: Vec2 { x: 0, y: 0 },
        }
    }
}

/// Mathematical model of a `CollisionCache`.
pub ghost struct CacheV {
    pub position_resolve: V2,
    pub velocity_resolve: V2,
    pub friction_total: int,
}

/// The resolver's per-body scratch, written during a tick and applied at its
/// end; zero at tick boundaries.
#[derive(Clone, Copy, PartialEq, Eq, Structural, Debug)]
pub struct CollisionCache {
    pub position_resolve: Vec2,
    pub velocity_resolve: Vec2,
    pub friction_total: i64,
}

impl View for CollisionCache {
    type V = CacheV;

    open spec fn view(&self) -> CacheV {
        CacheV {
            position_resolve: self.position_resolve@,
            velocity_resolve: self.velocity_resolve@,
            friction_total: self.friction_total as int,
        }
    }
}

pub open spec fn cache_zero() -> CacheV {
    CacheV { position_resolve: v2(0, 0), velocity_resolve: v2(0, 0), friction_total: 0 }
}

impl CollisionCache {
    pub fn new() -> (c: CollisionCache)
        ensures
            c@ == cache_zero(),
    {
        CollisionCache {
            position_resolve: Vec2 { x: 0, y: 0 },
            velocity_resolve: Vec2 { x: 0, y: 0 },
            friction_total: 0,
        }
    }
}

/// Tags a body as controlled by the player with the given id.
#[derive(Clone, Copy, PartialEq, Eq, Structural, Debug)]
pub struct Player {
    pub id: u8,
}

} // verus!
