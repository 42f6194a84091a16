//! Core of an interactive raster-image viewer: an exact-arithmetic camera /
//! viewport transform between screen space and image (world) space, and the
//! per-frame redraw decision and rasterization logic.
//!
//! Window handling, input polling, command-line parsing and image decoding
//! live outside this crate; the functions here are pure over plain values.

pub mod rat;
pub mod render;
pub mod viewport;
