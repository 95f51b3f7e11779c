//! Simulation core of a small two-ship arcade game: two tethered ships move
//! along the bottom of the map while obstacles fall from the top.  Obstacles
//! guided through the gap between the ships score points; an obstacle hitting
//! a ship, the ships colliding, or the tether staying overstretched for too
//! long ends the run.
//!
//! All world positions are kept in milli-units (one thousandth of a world
//! unit) and all times in milliseconds, so that every step of the simulation
//! is exact integer arithmetic.

pub mod units;
pub mod game_map;
pub mod game_time;
pub mod player;
pub mod obstacles;
pub mod score;
pub mod sim;
pub mod rng;
pub mod paths;
