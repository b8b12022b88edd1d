//! Performance-related constants and utilities: aligned storage and the
//! decisions about parallel execution.
pub mod memory;
pub mod parallel;


use vstd::prelude::*;

verus! {

/// Default number of work items from which processing runs in parallel.
pub const DEFAULT_PARALLEL_THRESHOLD: usize = 10000;

/// Default leaf size for KD-tree nodes.
pub const DEFAULT_KDTREE_LEAF_SIZE: usize = 32;

/// Default batch size when large operations are processed in chunks.
pub const DEFAULT_BATCH_SIZE: usize = 1024;

/// Memory alignment, in bytes, of a cache line.
pub const MEMORY_ALIGNMENT: usize = 64;

} // verus!
