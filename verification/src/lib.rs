//! Simulation core of a 2D "Asteroids" arcade game.
//!
//! The library owns the entity state (ship, asteroids, lasers), advances it
//! one discrete frame at a time, resolves collisions, and drives level and
//! score progression.  Rendering, audio and raw input live outside the
//! library; the core consumes pre-decoded input intents and hands back plain
//! state for drawing.
//!
//! All geometry is carried out over fixed-point integers: positions and
//! velocities are thousandths of a pixel, headings are unit vectors scaled by
//! `DIR_ONE`, and every collision test compares squared distances, so each
//! test is exact integer arithmetic.

pub mod asteroid;
pub mod consts;
pub mod game;
pub mod laser;
pub mod player;
pub mod num;
pub mod rng;
pub mod utils;
pub mod vec2;
pub mod world;
