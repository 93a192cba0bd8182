//! Bit-parity discriminant assignment.
//!
//! Given an ordered list of enum variants, a target bit parity (the number of
//! set bits in a value must be even or odd), and a fixed integer width and
//! signedness, this library assigns each variant a distinct integer value:
//! explicit values are validated against the parity rule and against each
//! other, and the remaining variants receive the smallest still-free values of
//! the requested parity, strictly after the last accepted value.

pub mod bit_par_iter;
pub mod domain;
pub mod int_repr;
pub mod parity;
pub mod resolve;

pub use bit_par_iter::BitParityIter;
pub use domain::IntegerDomain;
pub use domain::IntegerParity;
pub use int_repr::IntRepr;
pub use parity::Parity;
pub use resolve::resolve;
pub use resolve::Assignment;
pub use resolve::ExplicitValue;
pub use resolve::ResolutionError;
pub use resolve::Variant;
