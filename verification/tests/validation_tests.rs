use naturalneighbor3d::config::MAX_GRID_SIZE;
use naturalneighbor3d::errors::InputError;
use naturalneighbor3d::utils::grid::{grid_memory_estimate, grid_shape_valid, grid_total_points};
use naturalneighbor3d::utils::validation::{
    validate_data_consistency, validate_grid_params, validate_grid_size, validate_matching_lengths,
    validate_points_shape, validate_ranges_shape, validate_values_shape,
};

#[test]
fn points_shape_must_be_n_by_3() {
    assert!(validate_points_shape(&[3, 3]).is_ok());
    match validate_points_shape(&[3, 2]) {
        Err(InputError::InvalidPointsShape { shape }) => assert_eq!(shape, vec![3, 2]),
        other => panic!("unexpected {:?}", other),
    }
    match validate_points_shape(&[5, 3, 1]) {
        Err(InputError::InvalidPointsShape { shape }) => assert_eq!(shape, vec![5, 3, 1]),
        other => panic!("unexpected {:?}", other),
    }
}

#[test]
fn values_must_be_one_dimensional() {
    assert!(validate_values_shape(1).is_ok());
    assert!(matches!(
        validate_values_shape(2),
        Err(InputError::InvalidValuesShape { dimensions: 2 })
    ));
}

#[test]
fn ranges_shape_must_be_3_by_3() {
    assert!(validate_ranges_shape(&[3, 3]).is_ok());
    match validate_ranges_shape(&[2, 3]) {
        Err(InputError::InvalidRangesShape { shape }) => assert_eq!(shape, vec![2, 3]),
        other => panic!("unexpected {:?}", other),
    }
    assert!(validate_ranges_shape(&[3]).is_err());
}

#[test]
fn data_consistency_errors() {
    assert!(validate_data_consistency(3, 3).is_ok());
    assert!(matches!(
        validate_data_consistency(0, 0),
        Err(InputError::EmptyData)
    ));
    assert!(matches!(
        validate_data_consistency(10, 5),
        Err(InputError::MismatchedLength { points: 10, values: 5 })
    ));
    assert!(matches!(
        validate_matching_lengths(2, 1),
        Err(InputError::MismatchedLength { points: 2, values: 1 })
    ));
    assert!(validate_matching_lengths(0, 0).is_ok());
}

#[test]
fn grid_size_limit() {
    // An 11 x 11 x 11 grid, as a [0, 1] range with step 0.1 gives on each axis.
    assert!(validate_grid_size([11, 11, 11]).is_ok());
    assert!(validate_grid_size([1000, 1000, 100]).is_ok());
    assert!(matches!(
        validate_grid_size([1000, 1000, 101]),
        Err(InputError::GridTooLarge { size: 101_000_000, max_size: MAX_GRID_SIZE })
    ));
    assert!(matches!(
        validate_grid_size([usize::MAX, 2, 1]),
        Err(InputError::GridTooLarge { size: usize::MAX, max_size: MAX_GRID_SIZE })
    ));
    assert!(matches!(
        validate_grid_size([1 << 40, 1 << 30, 0]),
        Err(InputError::GridTooLarge { size: usize::MAX, .. })
    ));
}

#[test]
fn test_validate_grid_params() {
    assert!(validate_grid_params(true, &[10, 20, 30]).is_ok());
    match validate_grid_params(false, &[0, 20, 30]) {
        Err(InputError::NumericalError { message }) => {
            assert_eq!(message, "Invalid grid parameters")
        }
        other => panic!("unexpected {:?}", other),
    }
    assert!(matches!(
        validate_grid_params(true, &[1000, 1000, 1000]),
        Err(InputError::GridTooLarge { size: 1_000_000_000, max_size: MAX_GRID_SIZE })
    ));
}

#[test]
fn grid_totals() {
    assert_eq!(grid_total_points(&[10, 20, 30]), 6000);
    assert_eq!(grid_total_points(&[]), 1);
    assert_eq!(grid_memory_estimate(&[10, 20, 30]), 6000 * 8);
}

#[test]
fn grid_shape_validity() {
    assert!(grid_shape_valid(&[10, 20, 30]));
    assert!(!grid_shape_valid(&[0, 20, 30]));
    assert!(!grid_shape_valid(&[10, 20]));
    assert!(!grid_shape_valid(&[1, 1, 1, 1]));
}
