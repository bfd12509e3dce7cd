//! Charts.
pub mod line;
