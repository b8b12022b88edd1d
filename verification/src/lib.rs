//! Natural neighbor interpolation of scattered 3D data: the verified core.
//!
//! This crate holds the parts of the interpolation library whose behaviour is
//! decided on integers, strings and collections: points and bounding boxes
//! over any ordered coordinate type, the KD-tree's construction
//! by median splitting and its statistics, input-shape validation, grid size
//! limits, region-of-influence bounds, parallelisation decisions,
//! interpolation-method names, a vector that grows its capacity in powers of
//! two, the alignment of slices, and the version string parser. Every public function carries a contract checked by Verus.
//!
//! Computations on floating-point coordinates and values (distances, nearest
//! neighbour queries, interpolated values) are left to the caller, which
//! hands the library the integers and comparisons those computations yield.
pub mod common;
pub mod config;
pub mod errors;
pub mod ffi;
pub mod meta;
pub mod perf;
pub mod utils;
pub mod algorithms;

pub use algorithms::geometry::{BoundingBox, Point3D};
pub use algorithms::kdtree::TreeStats;
pub use config::InterpolationMethod;
pub use errors::{InputError, InputResult};
