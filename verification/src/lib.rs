//! Deterministic construction of a rounded-triangle brand mark with three
//! gradient badges and a drop-shadow highlight, emitted as an SVG document.
//!
//! All coordinates are fixed-point integers in micro-units (one unit of the
//! output coordinate system is 1_000_000 micros); values are rounded to
//! milli-units (three decimal places) immediately before serialization.

pub mod num;
pub mod decimal;
pub mod geom;
pub mod path;
pub mod markup;
pub mod compose;
