//! A bijection between fixed-width signed integers and the unsigned integers
//! of the same width, under which values of small magnitude stay small.
pub mod model;
pub mod transform;

pub use transform::ZigZag;
