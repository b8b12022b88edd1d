//! Utility computations for interpolation runs.
use vstd::prelude::*;

verus! {

/// The estimated bytes an interpolation onto an `ni x nj x nk` grid from
/// `num_points` data points uses: eight bytes per grid value for the output,
/// sixteen per grid point for the accumulators, and sixty-four per data point
/// for the KD-tree.
pub open spec fn memory_usage(ni: int, nj: int, nk: int, num_points: int) -> int {
    let grid_size = ni * nj * nk;
    grid_size * 8 + grid_size * 16 + num_points * 64
}

/// Estimates the memory an interpolation uses, in bytes.
pub fn estimate_memory_usage(grid_shape: (usize, usize, usize), num_points: usize) -> (bytes:
    usize)
    requires
        grid_shape.0 * grid_shape.1 <= usize::MAX,
        memory_usage(grid_shape.0 as int, grid_shape.1 as int, grid_shape.2 as int, num_points as int)
            <= usize::MAX,
    ensures
        bytes == memory_usage(grid_shape.0 as int, grid_shape.1 as int, grid_shape.2 as int, num_points as int),
{
    let (ni, nj, nk) = grid_shape;
    proof {
        let g = ni * nj * nk;
        assert(g >= 0 && g * 24 + num_points * 64 <= usize::MAX) by (nonlinear_arith)
            requires
                g == ni * nj * nk,
                ni >= 0,
                nj >= 0,
                nk >= 0,
                num_points >= 0,
                g * 8 + g * 16 + num_points * 64 <= usize::MAX,
        ;
    }
    let grid_size = ni * nj * nk;
    let output_memory = grid_size * 8;
    let temp_memory = grid_size * 16;
    let tree_memory = num_points * 64;
    output_memory + temp_memory + tree_memory
}

/// A grid that is at least as large on every axis, with at least as many
/// data points, is estimated to need at least as much memory.
pub proof fn lemma_memory_usage_monotone(
    small: (usize, usize, usize),
    large: (usize, usize, usize),
    num_points_small: usize,
    num_points_large: usize,
)
    requires
        small.0 <= large.0,
        small.1 <= large.1,
        small.2 <= large.2,
        num_points_small <= num_points_large,
    ensures
        memory_usage(small.0 as int, small.1 as int, small.2 as int, num_points_small as int)
            <= memory_usage(large.0 as int, large.1 as int, large.2 as int, num_points_large as int),
{
    let (a0, a1, a2) = small;
    let (b0, b1, b2) = large;
    assert(a0 * a1 <= b0 * b1) by (nonlinear_arith)
        requires
            0 <= a0 <= b0,
            0 <= a1 <= b1,
    ;
    assert(a0 * a1 * a2 <= b0 * b1 * b2) by (nonlinear_arith)
        requires
            0 <= a0 * a1 <= b0 * b1,
            0 <= a2 <= b2,
    ;
}

/// The estimate does not depend on the order in which the three grid axes
/// are given: swapping any two of them leaves it unchanged.
pub proof fn lemma_memory_usage_axis_order(ni: int, nj: int, nk: int, num_points: int)
    ensures
        memory_usage(ni, nj, nk, num_points) == memory_usage(nj, ni, nk, num_points),
        memory_usage(ni, nj, nk, num_points) == memory_usage(nk, nj, ni, num_points),
        memory_usage(ni, nj, nk, num_points) == memory_usage(ni, nk, nj, num_points),
{
    assert(ni * nj * nk == nj * ni * nk) by (nonlinear_arith);
    assert(ni * nj * nk == nk * nj * ni) by (nonlinear_arith);
    assert(ni * nj * nk == ni * nk * nj) by (nonlinear_arith);
}

/// An empty grid with no data points needs nothing; each further grid
/// layer along the third axis adds twenty-four bytes per point of an
/// `ni x nj` layer, and each further data point adds sixty-four bytes. So
/// the estimate is twenty-four bytes per grid point and sixty-four per data
/// point.
pub proof fn lemma_memory_usage_increments(ni: int, nj: int, nk: int, num_points: int)
    ensures
        memory_usage(ni, nj, 0, 0) == 0,
        memory_usage(ni, nj, nk + 1, num_points) == memory_usage(ni, nj, nk, num_points) + 24
            * (ni * nj),
        memory_usage(ni, nj, nk, num_points + 1) == memory_usage(ni, nj, nk, num_points) + 64,
        memory_usage(ni, nj, nk, num_points) == 24 * (ni * nj * nk) + 64 * num_points,
{
    assert(ni * nj * 0 == 0) by (nonlinear_arith);
    assert(ni * nj * (nk + 1) == ni * nj * nk + ni * nj) by (nonlinear_arith);
}

} // verus!
