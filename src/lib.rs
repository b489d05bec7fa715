//! Layout and data-projection engine for reactive SVG charts.
//!
//! Pixel coordinates and data positions are integers. Every function of the
//! crate is total on the inputs its contract admits and never panics.

pub mod bounds;
pub mod projection;
pub mod layout;
pub mod data;
pub mod aspect;
pub mod chart;
pub mod timestamp;
pub mod options;
