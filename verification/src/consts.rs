//! Game constants.  Distances and speeds are in thousandths of a pixel
//! (`SCALE` units per pixel); headings are scaled by `DIR_ONE`.
use vstd::prelude::*;

verus! {

/// Fixed-point scale: scalar units per pixel.
pub const SCALE: i64 = 1000;

/// Radius of the ship's broad-phase circle and of its triangular hull.
pub const PLAYER_SIZE: i64 = 25 * SCALE;

/// Fixed-point scale of heading (direction) vectors.
pub const DIR_ONE: i64 = 65536;

/// cos of the per-frame rotation step (0.08 rad), scaled by `DIR_ONE`.
pub const ROT_COS: i64 = 65326;

/// sin of the per-frame rotation step (0.08 rad), scaled by `DIR_ONE`.
pub const ROT_SIN: i64 = 5237;

/// sqrt(2)/2 scaled by `DIR_ONE`; used for the 135 and 225 degree offsets of
/// the ship's rear vertices.
pub const HALF_SQRT2: i64 = 46340;

/// Acceleration added along the heading on each thrusting frame.
pub const SHIP_THRUST: i64 = 100;

/// Length of the thrust flame, for rendering.
pub const FLAME_SIZE: i64 = 10 * SCALE;

/// Speed of a fired laser.
pub const LASER_SPEED: i64 = 10 * SCALE;

/// Radius of an asteroid per remaining life.
pub const ASTEROID_SIZE: i64 = 20 * SCALE;

/// Half-width of the square spawn-avoidance zone around the screen center.
pub const ASTEROID_SPAWN_DISTANCE: i64 = PLAYER_SIZE * 10;

/// Nothing can accelerate past this velocity (per axis).
pub const SPEED_OF_LIGHT: i64 = 7 * SCALE;

/// Largest supported viewport extent.
pub const MAX_BOUND: i64 = 8192 * SCALE;

/// Asteroid positions stay within this limit: on-screen positions plus the
/// offset at which a split child is placed next to its parent.
pub const A_POS_LIMIT: i64 = MAX_BOUND + 200 * SCALE;

/// Asteroid velocities stay within this limit per axis.
pub const V_LIMIT: i64 = 200_000_000;

/// Laser velocities stay within this limit per axis.
pub const LASER_V_LIMIT: i64 = 2 * LASER_SPEED;

/// Largest level the session can reach; keeps level-scaled speeds bounded.
pub const MAX_LEVEL: u32 = 100_000;

/// Largest life count an asteroid may carry into a collision test.
pub const LIVES_LIMIT: u32 = 4096;

/// Retry cap for each rejection-sampled spawn placement.
pub const SPAWN_ATTEMPTS: u32 = 100;

/// A freshly sampled direction's magnitude stays above this (fixed-point
/// rescaling loses at most a fraction of a percent of `DIR_ONE`).
pub const DIR_NORM_MIN: i64 = 65_000;

/// A freshly sampled direction's magnitude stays below this.
pub const DIR_NORM_MAX: i64 = 66_000;

/// Coordinates handed to the distance helpers stay within this limit.
pub const COORD_LIMIT: i64 = 0x100_0000_0000;

/// Default viewport, used by `Default` constructors.
pub const DEFAULT_WIDTH: i64 = 1920 * SCALE;

/// Default viewport, used by `Default` constructors.
pub const DEFAULT_HEIGHT: i64 = 1080 * SCALE;

} // verus!
