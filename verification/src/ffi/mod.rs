//! The decisions behind the Python entry points: which method a request
//! names, and which input shapes it accepts.
pub mod python;
