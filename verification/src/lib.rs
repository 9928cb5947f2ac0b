//! Extracts game-mod assets from ZIP archives, reorganizes them according to a
//! declarative mapping, and slices fixed-grid texture atlases into per-cell
//! images.
//!
//! The crate is organized around three verified cores: the grid coordinate
//! ([`pos`]), the archive multiplexer ([`archive`]) and the atlas slicer
//! ([`raster`]), with [`driver`] computing the copy plan and output layout.

pub mod archive;
pub mod driver;
pub mod errors;
pub mod mapping;
pub mod pos;
pub mod raster;
