//! Core simulation logic for a small 2D arcade shooter: formation
//! allocation, enemy orbital motion, spawn and fire coordination, and
//! collision resolution.
//!
//! All geometry is fixed-point: positions and sizes are i64 counts of
//! thousandths of a pixel, angles are i64 counts of microradians, and
//! cosine/sine values are supplied by the caller scaled by `TRIG_SCALE`.
//! The host is expected to drive one `GameWorld` through ticks, feeding in
//! the trigonometric values and the fixed-cadence signals.

use vstd::prelude::*;

pub mod formation;
pub mod geom;
pub mod motion;
pub mod player;
mod rng;
pub mod world;

verus! {

/// Thousandths of a pixel per pixel: the fixed-point scale of every
/// position, size and speed in the crate.
pub const POS_SCALE: i64 = 1000;

/// Simulation ticks per second; one tick advances time by 1/180 s.
pub const TICK_RATE: i64 = 180;

/// Greatest number of enemies alive at once.
pub const MAX_ENEMIES: u32 = 4;

/// Greatest number of enemies sharing one formation before a new one is
/// started.
pub const MAX_FORMATION_MEMBERS: u32 = 2;

/// Fixed-point scale of the cosine and sine values handed in by the host:
/// a value of `TRIG_SCALE` stands for 1.0.
pub const TRIG_SCALE: i64 = 1_000_000;

/// Microradians per radian: the fixed-point scale of every angle.
pub const ANGLE_SCALE: i64 = 1_000_000;

/// Pi in microradians, rounded to the nearest integer.
pub const PI_MICRO: i64 = 3_141_593;

/// Upper bound on any entity speed, in thousandths of a pixel per second.
pub const SPEED_LIMIT: i64 = 100_000_000;

/// Upper bound on a formation radius, in thousandths of a pixel.
pub const RADIUS_LIMIT: i64 = 10_000_000;

/// Upper bound on the magnitude of a formation's start and offset
/// coordinates, in thousandths of a pixel.
pub const POS_LIMIT: i64 = 1_000_000_000;

/// Upper bound on the magnitude of an enemy position coordinate: motion
/// keeps each enemy between its old position and a target whose magnitude
/// is at most `POS_LIMIT + RADIUS_LIMIT`.
pub const ENTITY_LIMIT: i64 = 1_100_000_000;

/// Upper bound on the magnitude of a projectile position coordinate.
pub const LASER_LIMIT: i64 = 1_200_000_000;

/// Upper bound on a bounding-box extent, in thousandths of a pixel.
pub const SIZE_LIMIT: i64 = 100_000_000;

/// Upper bound on the window width and height, in thousandths of a pixel.
pub const WIN_LIMIT: i64 = 100_000_000;

/// Default entity speed: 500 pixels per second.
pub const DEFAULT_SPEED: i64 = 500_000;

/// Vertical distance below an enemy at which its projectiles appear: 15
/// pixels.
pub const LASER_DROP: i64 = 15_000;

} // verus!
