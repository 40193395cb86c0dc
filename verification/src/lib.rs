//! A small 2D sprite-field engine, verified end to end on fixed-point
//! arithmetic: texture-atlas packing, projection and GPU buffer layout, and a
//! wind-driven drifting-sprite simulation with bounded rotation and
//! screen-edge wrapping.
//!
//! Every quantity that the reference rendering stack keeps as a binary float
//! is held here as an `i64` count of millionths (see [`fixed`]), so the whole
//! engine is exact integer arithmetic and carries full functional contracts.
//! The unverifiable edges (GPU calls, DOM events, image fetching, clocks and
//! randomness) stay outside; they feed plain values in and read plain values
//! out.

pub mod fixed;
pub mod geom;
pub mod renderer;
pub mod scene;
