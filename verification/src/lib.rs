//! Deterministic fixed-step 2D collision and motion core for a small
//! platformer.
//!
//! All world quantities (positions, velocities, accelerations, shape
//! extents) are fixed-point numbers: `i64` counts of `1 / util::SCALE` of a
//! pixel.  Every component of the core is specified over the unbounded
//! integer model of that fixed-point arithmetic and verified against it:
//! the vector helpers in [`util`], the shapes and the pairwise contact
//! query in [`shape`], the body store components in [`components`], the
//! integrator, resolver and input adapter in [`systems`], and the game
//! states in [`states`].

pub mod collision;
pub mod components;
pub mod data;
pub mod shape;
pub mod states;
pub mod systems;
pub mod util;
