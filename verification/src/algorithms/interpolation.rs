//! Natural neighbor interpolation: method choices and the integer
//! bookkeeping of the region-of-influence algorithm.
pub mod utils;

use vstd::prelude::*;

verus! {

/// The interpolation algorithms that can be compared with each other.
#[derive(Debug, Clone, Copy, PartialEq, Eq, Structural)]
pub enum InterpolationMethod {
    /// Natural neighbor interpolation (default, best quality)
    NaturalNeighbor,
    /// Inverse distance weighted interpolation (faster, simpler)
    Linear,
    /// Nearest neighbor interpolation (fastest, discontinuous)
    Nearest,
}

/// The human-readable name of each algorithm.
pub open spec fn display_name(method: InterpolationMethod) -> Seq<char> {
    match method {
        InterpolationMethod::NaturalNeighbor => "Natural Neighbor"@,
        InterpolationMethod::Linear => "Linear (IDW)"@,
        InterpolationMethod::Nearest => "Nearest Neighbor"@,
    }
}

impl Default for InterpolationMethod {
    /// Natural neighbor interpolation is the default algorithm.
    fn default() -> (r: Self)
        ensures
            r == InterpolationMethod::NaturalNeighbor,
    {
        InterpolationMethod::NaturalNeighbor
    }
}

impl InterpolationMethod {
    /// The algorithm's human-readable name.
    pub fn to_string(&self) -> (s: String)
        ensures
            s@ == display_name(*self),
    {
        match self {
            InterpolationMethod::NaturalNeighbor => "Natural Neighbor".to_owned(),
            InterpolationMethod::Linear => "Linear (IDW)".to_owned(),
            InterpolationMethod::Nearest => "Nearest Neighbor".to_owned(),
        }
    }
}

/// The radius of the region of influence around a grid point: the rounded-up
/// distance to its nearest data point, at least one and at most the
/// configured maximum search radius (the maximum wins when it is below one).
pub open spec fn roi_radius(rounded_distance: int, max_radius: int) -> int {
    let at_least_one = if rounded_distance >= 1 {
        rounded_distance
    } else {
        1
    };
    if at_least_one <= max_radius {
        at_least_one
    } else {
        max_radius
    }
}

/// Computes the region-of-influence radius from the distance to the nearest
/// data point, already rounded up to a whole number of grid cells, and the
/// maximum search radius in whole cells.
pub fn calculate_roi_radius(rounded_distance: i64, max_radius: i64) -> (r: i64)
    ensures
        r == roi_radius(rounded_distance as int, max_radius as int),
{
    let radius = if rounded_distance >= 1 {
        rounded_distance
    } else {
        1
    };
    if radius <= max_radius {
        radius
    } else {
        max_radius
    }
}

/// The region-of-influence radius is the rounded-up distance to the nearest
/// data point whenever that distance lies between one cell and the maximum
/// radius. Whatever the distance, the radius is the distance, one cell or
/// the maximum; it never exceeds the maximum, never falls below one cell
/// when the maximum allows one, and never falls below a distance that is
/// within the maximum.
pub proof fn lemma_roi_radius_law(rounded_distance: int, max_radius: int)
    ensures
        1 <= rounded_distance <= max_radius ==> roi_radius(rounded_distance, max_radius)
            == rounded_distance,
        roi_radius(rounded_distance, max_radius) <= max_radius,
        max_radius >= 1 ==> roi_radius(rounded_distance, max_radius) >= 1,
        rounded_distance <= max_radius ==> roi_radius(rounded_distance, max_radius)
            >= rounded_distance,
        roi_radius(rounded_distance, max_radius) == rounded_distance || roi_radius(
            rounded_distance,
            max_radius,
        ) == 1 || roi_radius(rounded_distance, max_radius) == max_radius,
{
}

/// A nearer data point never gives a larger region of influence: the radius
/// does not decrease as the distance grows, under the same maximum.
pub proof fn lemma_roi_radius_monotone(nearer: int, farther: int, max_radius: int)
    requires
        nearer <= farther,
    ensures
        roi_radius(nearer, max_radius) <= roi_radius(farther, max_radius),
{
}

/// The rectangular block of grid indices around a grid point that a region
/// of influence covers, bounds included.
#[derive(Debug, Clone, Copy, PartialEq, Eq, Structural)]
pub struct RoiBounds {
    /// Lowest first index.
    pub i_min: usize,
    /// Highest first index.
    pub i_max: usize,
    /// Lowest second index.
    pub j_min: usize,
    /// Highest second index.
    pub j_max: usize,
    /// Lowest third index.
    pub k_min: usize,
    /// Highest third index.
    pub k_max: usize,
}

/// The lowest index a region of `radius` cells around `center` reaches,
/// clipped at zero.
pub open spec fn roi_low(center: int, radius: int) -> int {
    if center - radius >= 0 {
        center - radius
    } else {
        0
    }
}

/// The highest index a region of `radius` cells around `center` reaches,
/// clipped at the last index `size - 1`.
pub open spec fn roi_high(center: int, radius: int, size: int) -> int {
    if center + radius <= size - 1 {
        center + radius
    } else {
        size - 1
    }
}

/// Whether `center + radius` and `center - radius` are representable.
pub open spec fn roi_in_range(center: usize, radius: i64) -> bool {
    &&& center <= i64::MAX
    &&& i64::MIN <= center + radius <= i64::MAX
    &&& i64::MIN <= center - radius <= i64::MAX
}

fn roi_interval(center: usize, radius: i64, size: usize) -> (r: (usize, usize))
    requires
        center < size,
        size <= i64::MAX,
        roi_in_range(center, radius),
    ensures
        r.0 == roi_low(center as int, radius as int) as usize,
        r.1 == roi_high(center as int, radius as int, size as int) as usize,
{
    let c = center as i64;
    let low = if c - radius >= 0 {
        c - radius
    } else {
        0
    };
    let last = size as i64 - 1;
    let high = if c + radius <= last {
        c + radius
    } else {
        last
    };
    (low as usize, high as usize)
}

/// Computes the block of grid indices within `roi_radius` cells of grid
/// point `(i, j, k)` on each axis, clipped to the grid `ni x nj x nk`.
pub fn calculate_roi_bounds(
    i: usize,
    j: usize,
    k: usize,
    roi_radius: i64,
    ni: usize,
    nj: usize,
    nk: usize,
) -> (b: RoiBounds)
    requires
        i < ni,
        j < nj,
        k < nk,
        ni <= i64::MAX,
        nj <= i64::MAX,
        nk <= i64::MAX,
        roi_in_range(i, roi_radius),
        roi_in_range(j, roi_radius),
        roi_in_range(k, roi_radius),
    ensures
        b.i_min == roi_low(i as int, roi_radius as int) as usize,
        b.i_max == roi_high(i as int, roi_radius as int, ni as int) as usize,
        b.j_min == roi_low(j as int, roi_radius as int) as usize,
        b.j_max == roi_high(j as int, roi_radius as int, nj as int) as usize,
        b.k_min == roi_low(k as int, roi_radius as int) as usize,
        b.k_max == roi_high(k as int, roi_radius as int, nk as int) as usize,
{
    let (i_min, i_max) = roi_interval(i, roi_radius, ni);
    let (j_min, j_max) = roi_interval(j, roi_radius, nj);
    let (k_min, k_max) = roi_interval(k, roi_radius, nk);
    RoiBounds { i_min, i_max, j_min, j_max, k_min, k_max }
}

/// For a non-negative radius, the block around a grid point contains that
/// point and stays inside the grid.
pub proof fn lemma_roi_bounds_within_grid(center: usize, radius: i64, size: usize)
    requires
        center < size,
        size <= i64::MAX,
        radius >= 0,
        roi_in_range(center, radius),
    ensures
        0 <= roi_low(center as int, radius as int) <= center,
        center <= roi_high(center as int, radius as int, size as int) < size,
{
}

} // verus!
