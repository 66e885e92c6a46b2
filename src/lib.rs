//! Decoding of a 1990s game engine's binary assets: the tagged chunk
//! container, texture dictionaries and their rasters, and models split into
//! one mesh per material.
use vstd::prelude::*;

pub mod bytes;
pub mod chunk;
pub mod error;
pub mod geometry;
pub mod material;
pub mod mesh;
pub mod partition;
pub mod raster;
pub mod txd;
pub mod utils;
