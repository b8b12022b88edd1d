//! Configuration constants and the interpolation-method choice.
use vstd::prelude::*;

verus! {

/// Maximum number of grid points an interpolation may produce.
pub const MAX_GRID_SIZE: usize = 100_000_000;

/// Default number of grid points from which interpolation runs in parallel.
pub const DEFAULT_PARALLEL_THRESHOLD: usize = 10_000;

/// Default minimum number of neighbours considered per interpolated point.
pub const DEFAULT_MIN_NEIGHBORS: usize = 3;

/// Default maximum number of neighbours considered per interpolated point.
pub const DEFAULT_MAX_NEIGHBORS: usize = 50;

/// The interpolation methods a caller can ask for.
#[derive(Debug, Clone, Copy, PartialEq, Eq, Structural)]
pub enum InterpolationMethod {
    /// Natural neighbor interpolation (default, best quality)
    NaturalNeighbor,
    /// Inverse distance weighted interpolation (faster, simpler)
    Linear,
    /// Nearest neighbor interpolation (fastest, discontinuous)
    NearestNeighbor,
}

/// The name under which each method is known to callers.
pub open spec fn method_name(method: InterpolationMethod) -> Seq<char> {
    match method {
        InterpolationMethod::NaturalNeighbor => "natural_neighbor"@,
        InterpolationMethod::Linear => "linear"@,
        InterpolationMethod::NearestNeighbor => "nearest"@,
    }
}

impl Default for InterpolationMethod {
    /// Natural neighbor interpolation is the default method.
    fn default() -> (r: Self)
        ensures
            r == InterpolationMethod::NaturalNeighbor,
    {
        InterpolationMethod::NaturalNeighbor
    }
}

impl InterpolationMethod {
    /// The method's name: `natural_neighbor`, `linear` or `nearest`.
    pub fn to_string(&self) -> (s: String)
        ensures
            s@ == method_name(*self),
    {
        match self {
            InterpolationMethod::NaturalNeighbor => "natural_neighbor".to_owned(),
            InterpolationMethod::Linear => "linear".to_owned(),
            InterpolationMethod::NearestNeighbor => "nearest".to_owned(),
        }
    }
}

/// Whether the integer settings of an interpolation configuration are
/// consistent: a positive parallel threshold, at least one neighbour, and a
/// maximum neighbour count no smaller than the minimum.
pub fn counts_valid(parallel_threshold: usize, min_neighbors: usize, max_neighbors: usize) -> (r:
    bool)
    ensures
        r == (parallel_threshold > 0 && min_neighbors > 0 && max_neighbors >= min_neighbors),
{
    parallel_threshold > 0 && min_neighbors > 0 && max_neighbors >= min_neighbors
}

} // verus!
