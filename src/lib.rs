//! A small bullet-dodging arcade simulation: an emitter works through a
//! looping playlist of attack patterns, each pattern expands into bullet
//! spawn requests, bullets fly at constant velocity, and a keyboard-driven
//! player is knocked out of play by the first bullet that touches it.
//!
//! Quantities are integers: lengths in milli-units, times in nanoseconds,
//! angles in microdegrees, speeds in milli-units per second.

pub mod bullet;
pub mod ferris;
pub mod fire_book;
pub mod logo;
pub mod pattern;
pub mod timer;
