use naturalneighbor3d::algorithms::interpolation::utils::estimate_memory_usage;
use naturalneighbor3d::algorithms::interpolation::{
    calculate_roi_bounds, calculate_roi_radius, InterpolationMethod, RoiBounds,
};

#[test]
fn interpolation_test_interpolation_method_display() {
    assert_eq!(
        InterpolationMethod::NaturalNeighbor.to_string(),
        "Natural Neighbor"
    );
    assert_eq!(InterpolationMethod::Linear.to_string(), "Linear (IDW)");
    assert_eq!(
        InterpolationMethod::Nearest.to_string(),
        "Nearest Neighbor"
    );
}

#[test]
fn default_interpolation_algorithm() {
    assert_eq!(
        InterpolationMethod::default(),
        InterpolationMethod::NaturalNeighbor
    );
}

#[test]
fn test_utils_memory_estimation() {
    let memory = estimate_memory_usage((10, 10, 10), 100);
    assert!(memory > 0);

    // Memory should scale with grid size
    let larger_memory = estimate_memory_usage((20, 20, 20), 100);
    assert!(larger_memory > memory);
}

#[test]
fn memory_estimation_formula() {
    assert_eq!(estimate_memory_usage((10, 10, 10), 100), 1000 * 24 + 100 * 64);
    assert_eq!(estimate_memory_usage((0, 5, 5), 2), 128);
}

#[test]
fn roi_radius_is_clamped() {
    assert_eq!(calculate_roi_radius(0, 10), 1);
    assert_eq!(calculate_roi_radius(4, 10), 4);
    assert_eq!(calculate_roi_radius(25, 10), 10);
    assert_eq!(calculate_roi_radius(3, 0), 0);
}

#[test]
fn roi_bounds_clip_to_grid() {
    let b = calculate_roi_bounds(0, 1, 2, 1, 3, 3, 3);
    assert_eq!(
        b,
        RoiBounds { i_min: 0, i_max: 1, j_min: 0, j_max: 2, k_min: 1, k_max: 2 }
    );
    let wide = calculate_roi_bounds(5, 5, 5, 10, 8, 20, 6);
    assert_eq!(
        wide,
        RoiBounds { i_min: 0, i_max: 7, j_min: 0, j_max: 15, k_min: 0, k_max: 5 }
    );
}
