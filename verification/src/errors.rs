//! Errors that the library decides from shapes, counts and names.
use vstd::prelude::*;

verus! {

/// An input that the library refuses, or a request it cannot serve.
///
/// These are the errors decided on integer shapes, counts and method names;
/// the refusals that depend on floating-point values (ranges, steps,
/// non-finite coordinates) are raised by the caller that reads them.
#[derive(Debug)]
pub enum InputError {
    /// The points array is not 2D with shape (N, 3).
    InvalidPointsShape {
        /// The shape that was provided.
        shape: Vec<usize>,
    },
    /// The values array is not 1D.
    InvalidValuesShape {
        /// The number of dimensions of the values array.
        dimensions: usize,
    },
    /// The numbers of points and of values differ.
    MismatchedLength {
        /// Number of points provided.
        points: usize,
        /// Number of values provided.
        values: usize,
    },
    /// The interpolation ranges array does not have shape (3, 3).
    InvalidRangesShape {
        /// The shape that was provided.
        shape: Vec<usize>,
    },
    /// No point was provided.
    EmptyData,
    /// The grid would hold more points than allowed.
    GridTooLarge {
        /// The requested grid size (`usize::MAX` when it does not fit).
        size: usize,
        /// The maximum allowed size.
        max_size: usize,
    },
    /// A numerical or structural inconsistency.
    NumericalError {
        /// What went wrong.
        message: String,
    },
    /// The interpolation could not be carried out.
    InterpolationFailed {
        /// Why it failed.
        reason: String,
    },
    /// Memory could not be allocated or managed.
    MemoryError {
        /// Details about the failure.
        details: String,
    },
    /// A requested feature is not available.
    NotImplemented {
        /// The feature that was requested.
        feature: String,
    },
    /// An input that is invalid for another reason.
    InvalidInput {
        /// What is wrong with it.
        message: String,
    },
}

/// Result type of the library's validations.
pub type InputResult<T> = Result<T, InputError>;

} // verus!
