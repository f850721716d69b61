//! Exact integer core of a spherical Web-Mercator tile projection.
//!
//! A Web-Mercator map at zoom level `z` is a square of `tile_size * 2^z`
//! pixels on each side, with the projection origin at its centre.  Every
//! per-zoom projection constant is a fixed multiple of that edge length, so
//! the whole discrete geometry of the grid — which zoom levels are
//! supported, how large the map is at each of them, where the origin sits,
//! and how all of it scales from one zoom level to the next — is exact
//! integer arithmetic, and is verified here.  The continuous part of the
//! projection (the trigonometric forward and inverse transforms on
//! floating-point coordinates) sits outside this crate and is driven by the
//! guarantees proved here.

pub mod grid;
pub mod zoom;
