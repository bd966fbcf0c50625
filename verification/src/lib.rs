//! Simulation core of a small 2D arcade game: a player avoids roaming enemies
//! and collects stars inside a window.
//!
//! All quantities are integers. Lengths and positions are counted in units of
//! one thousandth of a pixel, time in microseconds, and directions are
//! fixed-point vectors in which `DIRECTION_ONE` stands for length one. Every
//! update function is total, and its contract states the new state exactly.

pub mod config;
pub mod confinement;
pub mod enemy;
pub mod filters;
pub mod math;
pub mod player;
pub mod random;
pub mod score;
pub mod session;
pub mod star;
pub mod state;
pub mod timer;
pub mod vec2;
