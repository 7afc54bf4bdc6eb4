//! Raycasting and collision core of a tile-based 2.5D renderer.
//!
//! World-space scalars (positions, radii, grid edge lengths, ray direction
//! components) are fixed-point numbers: an `i64` counts sub-units of
//! `1 / FP_ONE` world units.  All geometric decisions (grid traversal order,
//! circle/box overlap, rounding to tile corners) are made with exact integer
//! arithmetic, so every function here is a total function of its arguments.
//!
//! The crate owns no window, GPU pipeline or input device: callers feed it a
//! wall table and a camera pose and consume per-column hit records.

pub mod asset;
pub mod collision;
pub mod game;
pub mod geometry;
pub mod input;
pub mod raycasting;
