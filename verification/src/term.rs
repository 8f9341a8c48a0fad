//! The terminal-facing half of the library: screen buffers and their diffs,
//! the session and input state machines, and the double-buffered renderer.

pub mod input;
pub mod runs;
pub mod session;
pub mod terminal;
pub mod tui;
pub mod util;
