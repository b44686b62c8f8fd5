//! Verified core of a map-tile rendering engine for raster imagery.
//!
//! The crate covers the numerical and structural heart of the pipeline:
//! tile coordinate mapping, bounding-box intersection, channel compositing
//! into RGBA buffers, histogram bin counting, elevation-profile bookkeeping,
//! the dataset-path cache, and the URL handling of the catalog client.
//! Floating-point sampling and all raster/network I/O live outside the
//! verified library and hand it plain values.

pub mod bounds;
pub mod cache;
pub mod composite;
pub mod histogram;
pub mod profile;
pub mod render;
pub mod sampler;
pub mod stac;
pub mod stats;
pub mod tile;
pub mod vector;
