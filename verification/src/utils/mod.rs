//! Grid bookkeeping and input validation.
pub mod grid;
pub mod validation;
