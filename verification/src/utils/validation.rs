//! Validation of input shapes, counts and grid sizes.
use vstd::prelude::*;
use crate::config::MAX_GRID_SIZE;
use crate::errors::{InputError, InputResult};
use crate::utils::grid::{grid_total_points, shape_product, shape_product_fits};

verus! {

/// Refuses a points array unless its shape is (N, 3): two dimensions, the
/// second of size three.
pub fn validate_points_shape(shape: &[usize]) -> (r: InputResult<()>)
    ensures
        r is Ok <==> (shape@.len() == 2 && shape@[1] == 3),
        r matches Err(e) ==> (e matches InputError::InvalidPointsShape { shape: s } && s@
            == shape@),
{
    if shape.len() != 2 || shape[1] != 3 {
        return Err(InputError::InvalidPointsShape { shape: vstd::slice::slice_to_vec(shape) });
    }
    Ok(())
}

/// Refuses a values array unless it has one dimension.
pub fn validate_values_shape(dimensions: usize) -> (r: InputResult<()>)
    ensures
        r is Ok <==> dimensions == 1,
        r matches Err(e) ==> e == (InputError::InvalidValuesShape { dimensions }),
{
    if dimensions != 1 {
        return Err(InputError::InvalidValuesShape { dimensions });
    }
    Ok(())
}

/// Refuses an interpolation-ranges array unless its shape is (3, 3): one
/// row of start, stop and step per axis.
pub fn validate_ranges_shape(shape: &[usize]) -> (r: InputResult<()>)
    ensures
        r is Ok <==> shape@ == seq![3usize, 3usize],
        r matches Err(e) ==> (e matches InputError::InvalidRangesShape { shape: s } && s@
            == shape@),
{
    if shape.len() != 2 || shape[0] != 3 || shape[1] != 3 {
        proof {
            if shape@.len() == 2 {
                assert(shape@[0] != 3 || shape@[1] != 3);
                assert(shape@ != seq![3usize, 3usize]);
            }
        }
        return Err(InputError::InvalidRangesShape { shape: vstd::slice::slice_to_vec(shape) });
    }
    assert(shape@ =~= seq![3usize, 3usize]);
    Ok(())
}

/// Refuses point and value counts that differ.
pub fn validate_matching_lengths(num_points: usize, num_values: usize) -> (r: InputResult<()>)
    ensures
        r is Ok <==> num_points == num_values,
        r matches Err(e) ==> e == (InputError::MismatchedLength {
            points: num_points,
            values: num_values,
        }),
{
    if num_points != num_values {
        return Err(InputError::MismatchedLength { points: num_points, values: num_values });
    }
    Ok(())
}

/// Refuses data without any point, then point and value counts that differ.
pub fn validate_data_consistency(num_points: usize, num_values: usize) -> (r: InputResult<()>)
    ensures
        r is Ok <==> (num_points > 0 && num_points == num_values),
        num_points == 0 ==> r == Err::<(), InputError>(InputError::EmptyData),
        num_points > 0 && num_points != num_values ==> r == Err::<(), InputError>(
            InputError::MismatchedLength { points: num_points, values: num_values },
        ),
{
    if num_points == 0 {
        return Err(InputError::EmptyData);
    }
    validate_matching_lengths(num_points, num_values)
}

/// Refuses a grid of `axis_points[0] * axis_points[1] * axis_points[2]`
/// points when that count does not fit in a `usize` (checked axis by axis)
/// or exceeds `MAX_GRID_SIZE`.
pub fn validate_grid_size(axis_points: [usize; 3]) -> (r: InputResult<()>)
    ensures
        r is Ok <==> (axis_points[0] * axis_points[1] <= usize::MAX && axis_points[0]
            * axis_points[1] * axis_points[2] <= MAX_GRID_SIZE),
        (axis_points[0] * axis_points[1] > usize::MAX || axis_points[0] * axis_points[1]
            * axis_points[2] > usize::MAX) ==> r == Err::<(), InputError>(
            InputError::GridTooLarge { size: usize::MAX, max_size: MAX_GRID_SIZE },
        ),
        (axis_points[0] * axis_points[1] <= usize::MAX && usize::MAX >= axis_points[0]
            * axis_points[1] * axis_points[2] > MAX_GRID_SIZE) ==> r == Err::<(), InputError>(
            InputError::GridTooLarge {
                size: (axis_points[0] * axis_points[1] * axis_points[2]) as usize,
                max_size: MAX_GRID_SIZE,
            },
        ),
{
    let mut total_grid_size: usize = 1;
    let mut axis: usize = 0;
    while axis < 3
        invariant
            axis <= 3,
            total_grid_size == (if axis == 0 {
                1
            } else if axis == 1 {
                axis_points[0] as int
            } else if axis == 2 {
                axis_points[0] * axis_points[1]
            } else {
                axis_points[0] * axis_points[1] * axis_points[2]
            }),
            axis >= 2 ==> axis_points[0] * axis_points[1] <= usize::MAX,
        decreases 3 - axis,
    {
        match total_grid_size.checked_mul(axis_points[axis]) {
            Some(new_size) => {
                total_grid_size = new_size;
            },
            None => {
                proof {
                    if axis == 2 {
                        assert(axis_points[0] * axis_points[1] * axis_points[2] > usize::MAX);
                    }
                }
                return Err(InputError::GridTooLarge { size: usize::MAX, max_size: MAX_GRID_SIZE });
            },
        }
        axis = axis + 1;
    }
    if total_grid_size > MAX_GRID_SIZE {
        return Err(InputError::GridTooLarge { size: total_grid_size, max_size: MAX_GRID_SIZE });
    }
    Ok(())
}

/// Refuses grid parameters that are inconsistent (`params_valid` is false),
/// then grids of more than `MAX_GRID_SIZE` points.
pub fn validate_grid_params(params_valid: bool, output_shape: &[usize]) -> (r: InputResult<()>)
    requires
        params_valid ==> shape_product_fits(output_shape@),
    ensures
        r is Ok <==> (params_valid && shape_product(output_shape@) <= MAX_GRID_SIZE),
        !params_valid ==> (r matches Err(e) && e matches InputError::NumericalError { message }
            && message@ == "Invalid grid parameters"@),
        params_valid && shape_product(output_shape@) > MAX_GRID_SIZE ==> r == Err::<
            (),
            InputError,
        >(
            InputError::GridTooLarge {
                size: shape_product(output_shape@) as usize,
                max_size: MAX_GRID_SIZE,
            },
        ),
{
    if !params_valid {
        return Err(InputError::NumericalError { message: "Invalid grid parameters".to_owned() });
    }
    let total = grid_total_points(output_shape);
    if total > MAX_GRID_SIZE {
        return Err(InputError::GridTooLarge { size: total, max_size: MAX_GRID_SIZE });
    }
    Ok(())
}

} // verus!
