//! Ambient lighting from a captured screen: the sampling geometry around a
//! display's perimeter, the reduction of each sampling rectangle to one colour,
//! and the per-source pipeline that decides what is sent to the LEDs.
//!
//! Everything here works on integers. A brightness is a ratio of two integers,
//! a mean is a sum and a pixel count, and every rounding is stated exactly.

pub mod boundary;
pub mod color;
pub mod extract;
pub mod frame;
pub mod geometry;
pub mod orchestrator;
pub mod pipeline;
pub mod regions;
pub mod rounding;
pub mod sink;
pub mod source;
