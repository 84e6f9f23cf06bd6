//! Deterministic simulation core of a top-down arcade shooter.
//!
//! A player ship rotates, thrusts and fires inside a bounded play
//! rectangle; enemies spawn on a timer and steer toward the player;
//! bullets fly straight and are pruned when they leave the rectangle;
//! short-lived trail particles decay behind the ship. The whole state is
//! advanced tick by tick from an elapsed-time delta and a set of input
//! flags, and a collision pass resolves bullet/enemy and player/enemy
//! overlaps.
//!
//! All quantities are fixed-point integers: coordinates in milli-pixels,
//! time in milliseconds, angles in 1/65536 of a turn (see `fixed`).

pub mod collisions;
pub mod fixed;
pub mod game_state;
pub mod geometry;
pub mod models;
pub mod rng;
pub mod timer;
pub mod trig;
