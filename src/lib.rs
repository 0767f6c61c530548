//! Core of a lunar-lander flight over endless procedural terrain.
//!
//! All quantities are fixed-point integers: lengths in thousandths of a world
//! unit, angles in milliradians, durations in nanoseconds, impulses in
//! thousandths, and score multipliers in hundredths.
pub mod contact;
pub mod flight;
pub mod level;
pub mod phase;
pub mod terrain;
