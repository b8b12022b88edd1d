use naturalneighbor3d::config::InterpolationMethod;
use naturalneighbor3d::errors::InputError;
use naturalneighbor3d::ffi::python::{
    check_griddata_shapes, check_xi_grid_shapes, check_xi_points_shape, parse_method,
    plan_griddata,
};

fn numerical_message(r: Result<impl std::fmt::Debug, InputError>) -> String {
    match r {
        Err(InputError::NumericalError { message }) => message,
        other => panic!("expected a numerical error, got {:?}", other),
    }
}

fn not_implemented_feature(r: Result<impl std::fmt::Debug, InputError>) -> String {
    match r {
        Err(InputError::NotImplemented { feature }) => feature,
        other => panic!("expected a not-implemented error, got {:?}", other),
    }
}

#[test]
fn method_names_select_methods() {
    assert_eq!(parse_method("linear").unwrap(), InterpolationMethod::Linear);
    assert_eq!(parse_method("nearest").unwrap(), InterpolationMethod::NearestNeighbor);
    assert_eq!(
        parse_method("natural_neighbor").unwrap(),
        InterpolationMethod::NaturalNeighbor
    );
}

#[test]
fn method_names_round_trip() {
    for m in [
        InterpolationMethod::NaturalNeighbor,
        InterpolationMethod::Linear,
        InterpolationMethod::NearestNeighbor,
    ] {
        assert_eq!(parse_method(&m.to_string()).unwrap(), m);
    }
}

#[test]
fn unknown_and_cubic_methods_refused() {
    assert_eq!(
        numerical_message(parse_method("cubic")),
        "Cubic interpolation not supported for 3D data"
    );
    assert_eq!(
        numerical_message(parse_method("spline")),
        "Unknown interpolation method 'spline' for 3D data"
    );
    assert_eq!(
        numerical_message(parse_method("Linear")),
        "Unknown interpolation method 'Linear' for 3D data"
    );
}

#[test]
fn griddata_plans() {
    assert_eq!(plan_griddata("linear", false).unwrap(), InterpolationMethod::Linear);
    assert_eq!(
        plan_griddata("nearest", false).unwrap(),
        InterpolationMethod::NearestNeighbor
    );
    // Natural neighbor interpolation is the default method, and is served.
    assert_eq!(
        plan_griddata("natural_neighbor", false).unwrap(),
        InterpolationMethod::NaturalNeighbor
    );
    assert_eq!(
        not_implemented_feature(plan_griddata("natural_neighbor", true)),
        "rescale=True"
    );
    assert_eq!(not_implemented_feature(plan_griddata("linear", true)), "rescale=True");
    // The method is checked before the rescaling flag.
    assert_eq!(
        numerical_message(plan_griddata("cubic", true)),
        "Cubic interpolation not supported for 3D data"
    );
}

#[test]
fn griddata_shape_checks() {
    assert!(check_griddata_shapes(4, 3, 4).is_ok());
    assert_eq!(
        numerical_message(check_griddata_shapes(4, 3, 5)),
        "Number of points and values must match"
    );
    assert_eq!(
        numerical_message(check_griddata_shapes(4, 2, 4)),
        "This function only supports 3D interpolation. Points must have shape (N, 3)"
    );
}

#[test]
fn xi_shape_checks() {
    assert_eq!(check_xi_grid_shapes(&[2, 3, 4], &[2, 3, 4], &[2, 3, 4]).unwrap(), vec![2, 3, 4]);
    assert_eq!(
        numerical_message(check_xi_grid_shapes(&[2, 3, 4], &[2, 3, 4], &[2, 3, 5])),
        "All xi arrays must have the same shape"
    );
    assert_eq!(check_xi_points_shape(7, 3).unwrap(), vec![7]);
    assert_eq!(
        numerical_message(check_xi_points_shape(7, 2)),
        "xi array must have shape (N, 3) for 3D interpolation"
    );
}
