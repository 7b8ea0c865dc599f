//! Core simulation of a small top-down 2D action game: a player sprite moves
//! over a tile grid, fires attack spheres at patrolling enemies, and dies on
//! enemy contact.
//!
//! All geometry is kept in integer coordinates; every movement step in the
//! game (walking, pushback, patrol, projectile travel) is a whole number of
//! units, so nothing is lost by modelling positions as integers.  Rendering,
//! input polling, and asset loading are external collaborators: the library
//! consumes a plain record of held keys and produces a list of draw commands.

use vstd::prelude::*;

pub mod entities;
pub mod geom;
pub mod laws;
pub mod model;
pub mod seqs;
pub mod world;

verus! {

/// Largest coordinate magnitude the simulation reasons about.  Every tick
/// moves an entity by at most `STEP_LIMIT` units, so staying a comfortable
/// margin inside `i64` keeps all position arithmetic exact.
pub const POS_LIMIT: i64 = 0x1000_0000_0000;

/// Upper bound on any per-tick movement delta or sprite dimension.
pub const STEP_LIMIT: i64 = 4096;

/// Coordinate bound for spawn points: one full step inside `POS_LIMIT`, so
/// that patrol range endpoints derived from a spawn point stay in bounds.
pub const SPAWN_LIMIT: i64 = POS_LIMIT - STEP_LIMIT;

/// Loose bound on the raw arguments of the overlap test: any two such values
/// can be added in an `i64` without overflow.
pub const GEOM_LIMIT: i64 = 0x1000_0000_0000_0000;

} // verus!
