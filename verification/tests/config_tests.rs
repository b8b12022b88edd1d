use naturalneighbor3d::config::{
    counts_valid, InterpolationMethod, DEFAULT_MAX_NEIGHBORS, DEFAULT_MIN_NEIGHBORS,
    DEFAULT_PARALLEL_THRESHOLD, MAX_GRID_SIZE,
};

#[test]
fn config_test_interpolation_method_display() {
    assert_eq!(
        InterpolationMethod::NaturalNeighbor.to_string(),
        "natural_neighbor"
    );
    assert_eq!(InterpolationMethod::Linear.to_string(), "linear");
    assert_eq!(InterpolationMethod::NearestNeighbor.to_string(), "nearest");
}

#[test]
fn test_interpolation_method_enum() {
    assert_eq!(
        InterpolationMethod::NaturalNeighbor.to_string(),
        "natural_neighbor"
    );
    assert_eq!(InterpolationMethod::Linear.to_string(), "linear");
    assert_eq!(InterpolationMethod::NearestNeighbor.to_string(), "nearest");

    assert_eq!(
        InterpolationMethod::default(),
        InterpolationMethod::NaturalNeighbor
    );
}

#[test]
fn default_limits() {
    assert_eq!(MAX_GRID_SIZE, 100_000_000);
    assert_eq!(DEFAULT_PARALLEL_THRESHOLD, 10_000);
    assert_eq!(DEFAULT_MIN_NEIGHBORS, 3);
    assert_eq!(DEFAULT_MAX_NEIGHBORS, 50);
}

#[test]
fn counts_valid_accepts_consistent_limits() {
    assert!(counts_valid(5000, 5, 100));
    assert!(counts_valid(DEFAULT_PARALLEL_THRESHOLD, DEFAULT_MIN_NEIGHBORS, DEFAULT_MAX_NEIGHBORS));
    assert!(counts_valid(1, 7, 7));
}

#[test]
fn counts_valid_refuses_inconsistent_limits() {
    assert!(!counts_valid(5000, 100, 50));
    assert!(!counts_valid(0, 5, 100));
    assert!(!counts_valid(5000, 0, 100));
}
