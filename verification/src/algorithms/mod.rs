//! Core algorithms: points and bounding boxes, the region-of-influence
//! bookkeeping of natural neighbor interpolation, the method choices, and
//! the KD-tree with its balance statistics.
pub mod geometry;
pub mod interpolation;
pub mod kdtree;
