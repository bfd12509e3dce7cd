//! Line charts on an integer pixel grid: axis values, interval mapping,
//! label placement and cursor hit-testing.
pub mod canvas;
pub mod chart;
pub mod geometry;
pub mod math;
