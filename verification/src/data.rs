//! Small shared data types: the camera window, the score, and the solidity
//! kind of a body.

use crate::util::{v2, Vec2, V2};
use vstd::prelude::*;

verus! {

/// How a body's volume behaves toward others.  `FallThrough` is reserved:
/// the resolver treats it as `Solid` today, but the field is part of a
/// body's description.
#[derive(Clone, Copy, PartialEq, Eq, Structural, Hash, Debug)]
pub enum SolidType {
    Solid,
    FallThrough,
}

/// The visible window: a translation and a size, in subpixel units.
#[derive(Clone, Copy, PartialEq, Eq, Structural, Debug)]
pub struct Camera {
    pub translate: Vec2,
    pub size: Vec2,
}

impl Camera {
    pub fn new() -> (c: Camera)
        ensures
            c.translate@ == v2(0, 0),
            c.size@ == v2(0, 0),
    {
        Camera { translate: Vec2 { x: 0, y: 0 }, size: Vec2 { x: 0, y: 0 } }
    }

    /// The orthographic view bounds the camera describes:
    /// (left, right, bottom, top).
    pub fn ortho_bounds(&self) -> (b: (i64, i64, i64, i64))
        requires
            self.translate@.x + self.size@.x <= 0x7fff_ffff_ffff_ffff,
            self.translate@.y + self.size@.y <= 0x7fff_ffff_ffff_ffff,
            -0x8000_0000_0000_0000 <= self.translate@.x + self.size@.x,
            -0x8000_0000_0000_0000 <= self.translate@.y + self.size@.y,
    ensures
            b.0 == self.translate@.x,
            b.1 == self.translate@.x + self.size@.x,
            b.2 == self.translate@.y,
            b.3 == self.translate@.y + self.size@.y,
    {
        (
            self.translate.x,
            self.translate.x + self.size.x,
            self.translate.y,
            self.translate.y + self.size.y,
        )
    }
}

/// Points scored and when the run started (subpixel-scaled seconds).
#[derive(Clone, Copy, PartialEq, Eq, Structural, Debug)]
pub struct Score {
    pub points: u32,
    pub start_time: i64,
}

impl Score {
    pub fn new() -> (s: Score)
        ensures
            s.points == 0,
            s.start_time == 0,
    {
        Score { points: 0, start_time: 0 }
    }
}

} // verus!
