//! A metaball field renderer.
//!
//! A field is a set of point sources, each with a strength; every raster
//! pixel is classified on or off by summing the sources' distance-weighted
//! influence and comparing the sum against a threshold. This crate holds the
//! data model, the rasterizer, and the control protocol that adjusts the
//! field's shaping parameters at run time.

pub mod control;
pub mod field;
pub mod geometry;
pub mod raster;
pub mod scalar;
