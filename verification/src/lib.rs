//! Rendering and input core of a terminal user interface: screen geometry,
//! double-buffered frames with cell-level diffing, and the state machines
//! that govern the terminal session and the input pipeline.

pub mod math;
pub mod term;
