//! Levenshtein edit distance between two sequences of Unicode characters,
//! computed by one of three interchangeable strategies: a naive recursive
//! algorithm, an equivalent recursive algorithm with an explicit case
//! analysis over the leading characters, and a dynamic-programming matrix.
//! All three are verified against the same mathematical definition, so they
//! agree on every input.

pub mod distance;
pub mod model;
pub mod strategy;

pub use distance::lev_idiomatic;
pub use distance::lev_matrix;
pub use distance::lev_naive;
pub use distance::levenshtein;
pub use strategy::parse_strategy;
pub use strategy::Strategy;
pub use strategy::UnknownStrategyError;
