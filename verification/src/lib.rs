//! Raster Voronoi diagrams: every pixel of a grid takes the colour of the
//! seed point nearest to it.
//!
//! Numbers with a fractional part are carried as [`scalar::Scalar`], the bit
//! pattern of an IEEE 754 binary32 value. The library compares such values
//! itself; arithmetic on them is supplied by the caller.

pub mod scalar;
pub mod geometry;
pub mod nearest;
pub mod number;
pub mod color;
pub mod raster;
pub mod voronoi;
pub mod config;
