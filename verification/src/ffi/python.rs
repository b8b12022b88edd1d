//! Decisions of the Python entry points that depend on names, flags and
//! shapes only: method selection, option support, and shape checks of the
//! arrays a caller passes.
use vstd::prelude::*;
use vstd::string::*;
use crate::common::same_text;
use crate::config::{method_name, InterpolationMethod};
use crate::errors::{InputError, InputResult};

verus! {

/// The method a name selects: `linear`, `nearest` or `natural_neighbor`.
pub open spec fn method_from_name(name: Seq<char>) -> Option<InterpolationMethod> {
    if name == "linear"@ {
        Some(InterpolationMethod::Linear)
    } else if name == "nearest"@ {
        Some(InterpolationMethod::NearestNeighbor)
    } else if name == "natural_neighbor"@ {
        Some(InterpolationMethod::NaturalNeighbor)
    } else {
        None
    }
}

/// Whether `error` is a numerical error with the given message.
pub open spec fn is_numerical_error(error: InputError, message: Seq<char>) -> bool {
    error matches InputError::NumericalError { message: m } && m@ == message
}

/// Whether `error` reports the given feature as not implemented.
pub open spec fn is_not_implemented(error: InputError, feature: Seq<char>) -> bool {
    error matches InputError::NotImplemented { feature: f } && f@ == feature
}

/// Selects the interpolation method a name asks for.
///
/// `cubic` is refused as unsupported for 3D data; any other unknown name is
/// refused with a message that quotes it.
pub fn parse_method(method: &str) -> (r: InputResult<InterpolationMethod>)
    ensures
        method_from_name(method@) matches Some(m) ==> r == Ok::<InterpolationMethod, InputError>(
            m,
        ),
        method_from_name(method@) is None && method@ == "cubic"@ ==> (r matches Err(e)
            && is_numerical_error(e, "Cubic interpolation not supported for 3D data"@)),
        method_from_name(method@) is None && method@ != "cubic"@ ==> (r matches Err(e)
            && is_numerical_error(
            e,
            "Unknown interpolation method '"@ + method@ + "' for 3D data"@,
        )),
{
    if same_text(method, "linear") {
        Ok(InterpolationMethod::Linear)
    } else if same_text(method, "nearest") {
        Ok(InterpolationMethod::NearestNeighbor)
    } else if same_text(method, "natural_neighbor") {
        Ok(InterpolationMethod::NaturalNeighbor)
    } else if same_text(method, "cubic") {
        Err(
            InputError::NumericalError {
                message: "Cubic interpolation not supported for 3D data".to_owned(),
            },
        )
    } else {
        let mut message = "Unknown interpolation method '".to_owned();
        message.append(method);
        message.append("' for 3D data");
        Err(InputError::NumericalError { message })
    }
}

/// The name of every method selects that method again.
pub proof fn lemma_method_name_round_trip(method: InterpolationMethod)
    ensures
        method_from_name(method_name(method)) == Some(method),
{
    reveal_strlit("linear");
    reveal_strlit("nearest");
    reveal_strlit("natural_neighbor");
    match method {
        InterpolationMethod::NaturalNeighbor => {
            assert("natural_neighbor"@.len() != "linear"@.len());
            assert("natural_neighbor"@.len() != "nearest"@.len());
        },
        InterpolationMethod::Linear => {},
        InterpolationMethod::NearestNeighbor => {
            assert("nearest"@.len() != "linear"@.len());
        },
    }
}

/// Decides how a `griddata` request is served: the method it names, when
/// that method can run with the given rescaling flag.
///
/// The method name is checked first (see `parse_method`); then rescaling is
/// refused as not implemented. Every known method, natural neighbor (the
/// default) among them, is served without rescaling.
pub fn plan_griddata(method: &str, rescale: bool) -> (r: InputResult<InterpolationMethod>)
    ensures
        method_from_name(method@) is None ==> r is Err,
        method_from_name(method@) is None && method@ == "cubic"@ ==> (r matches Err(e)
            && is_numerical_error(e, "Cubic interpolation not supported for 3D data"@)),
        method_from_name(method@) is None && method@ != "cubic"@ ==> (r matches Err(e)
            && is_numerical_error(
            e,
            "Unknown interpolation method '"@ + method@ + "' for 3D data"@,
        )),
        method_from_name(method@) is Some && rescale ==> (r matches Err(e) && is_not_implemented(
            e,
            "rescale=True"@,
        )),
        method_from_name(method@) matches Some(m) ==> (!rescale ==> r == Ok::<
            InterpolationMethod,
            InputError,
        >(m)),
{
    let selected = parse_method(method)?;
    if rescale {
        return Err(InputError::NotImplemented { feature: "rescale=True".to_owned() });
    }
    Ok(selected)
}

/// Checks the arrays passed to `griddata`: as many points as values, and
/// three coordinates per point.
pub fn check_griddata_shapes(num_points: usize, num_columns: usize, num_values: usize) -> (r:
    InputResult<()>)
    ensures
        r is Ok <==> (num_points == num_values && num_columns == 3),
        num_points != num_values ==> (r matches Err(e) && is_numerical_error(
            e,
            "Number of points and values must match"@,
        )),
        num_points == num_values && num_columns != 3 ==> (r matches Err(e) && is_numerical_error(
            e,
            "This function only supports 3D interpolation. Points must have shape (N, 3)"@,
        )),
{
    if num_points != num_values {
        return Err(
            InputError::NumericalError {
                message: "Number of points and values must match".to_owned(),
            },
        );
    }
    if num_columns != 3 {
        return Err(
            InputError::NumericalError {
                message: "This function only supports 3D interpolation. Points must have shape (N, 3)".to_owned(),
            },
        );
    }
    Ok(())
}

/// Whether two shapes are the same.
fn same_shape(a: &[usize], b: &[usize]) -> (r: bool)
    ensures
        r == (a@ == b@),
{
    if a.len() != b.len() {
        return false;
    }
    let mut i: usize = 0;
    while i < a.len()
        invariant
            a@.len() == b@.len(),
            i <= a@.len(),
            forall|j: int| 0 <= j < i ==> a@[j] == b@[j],
        decreases a@.len() - i,
    {
        if a[i] != b[i] {
            return false;
        }
        i = i + 1;
    }
    assert(a@ =~= b@);
    true
}

/// Checks the three coordinate arrays of a query grid passed as a tuple:
/// they must have the same shape, which becomes the shape of the result.
pub fn check_xi_grid_shapes(x_shape: &[usize], y_shape: &[usize], z_shape: &[usize]) -> (r:
    InputResult<Vec<usize>>)
    ensures
        r is Ok <==> (x_shape@ == y_shape@ && x_shape@ == z_shape@),
        r matches Ok(shape) ==> shape@ == x_shape@,
        r matches Err(e) ==> is_numerical_error(e, "All xi arrays must have the same shape"@),
{
    if !same_shape(x_shape, y_shape) || !same_shape(x_shape, z_shape) {
        return Err(
            InputError::NumericalError {
                message: "All xi arrays must have the same shape".to_owned(),
            },
        );
    }
    Ok(vstd::slice::slice_to_vec(x_shape))
}

/// Checks query points passed as one array of `rows x columns`: each point
/// needs three coordinates, and the result is flat, one value per row.
pub fn check_xi_points_shape(rows: usize, columns: usize) -> (r: InputResult<Vec<usize>>)
    ensures
        r is Ok <==> columns == 3,
        r matches Ok(shape) ==> shape@ == seq![rows],
        r matches Err(e) ==> is_numerical_error(
            e,
            "xi array must have shape (N, 3) for 3D interpolation"@,
        ),
{
    if columns != 3 {
        return Err(
            InputError::NumericalError {
                message: "xi array must have shape (N, 3) for 3D interpolation".to_owned(),
            },
        );
    }
    let mut shape = Vec::new();
    shape.push(rows);
    assert(shape@ =~= seq![rows]);
    Ok(shape)
}

} // verus!
