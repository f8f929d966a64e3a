//! Animated color-field engine for a terminal system-info banner.
//!
//! The engine maps (time, row, column, terminal size, speed) to 24-bit
//! colors through a family of procedural styles, plus small particle
//! systems (meteors, embers, falling letters) and a frame compositor.
//! All arithmetic is integer fixed-point: time in milliseconds, speed and
//! fractions in thousandths, hue angles in tenths of a degree.

pub mod args;
pub mod fixed;
pub mod logo;
pub mod fire;
pub mod ansi;
pub mod aurora;
pub mod comet;
pub mod fall;
pub mod embers;
pub mod kaleidoscope;
pub mod rainbow_outline;
pub mod lava;
pub mod marquee;
pub mod pulse_rings;
pub mod render;
pub mod matrix;
pub mod meteor_rain;
pub mod plasma;
pub mod rng;
pub mod styles;
