//! A chart-viewer core: named numeric series, an autoscaled view rectangle
//! with pan and zoom, a data-to-pixel coordinate transform, deterministic
//! palette cycling, axis-tick placement with formatted labels, and a
//! nearest-point tooltip hit test.
//!
//! Data coordinates are fixed-point: an `i64` counts units of `1 / SCALE`,
//! so `SCALE` is the number one. All view arithmetic is exact integer
//! arithmetic on that representation.

pub mod canvas;
pub mod chart;
pub mod dataview;
pub mod dataviewer;
pub mod num;
pub mod server;
pub mod stream;
pub mod xy;
