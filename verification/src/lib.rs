//! Verified decision logic for fitting a line `y = a*x + b` to paired samples
//! by gradient descent: reading and validating the sample table, choosing the
//! normalization scale, and deciding when training stops.
//!
//! Samples are IEEE 754 binary64 numbers held by their bit patterns, so that
//! every comparison the fit depends on is stated and proved over integers.

pub mod binary64;
pub mod dataset;
pub mod error;
pub mod normalize;
pub mod report;
pub mod table;
pub mod trainer;
