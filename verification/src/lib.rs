//! In-memory model of a bitmap-painting canvas: a raster surface mutated in
//! place by circular brush stamps and capped line segments, with clear,
//! resize and RGB export operations.

pub mod geom;
pub mod raster;
pub mod canvas;
pub mod attributes;
