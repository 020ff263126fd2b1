//! A verified text-mode display driver core.
//!
//! The library models a fixed-size character grid (the kind a VGA text-mode
//! device exposes at a fixed physical address) and a `Writer` that turns a
//! stream of output bytes into grid mutations: printable bytes are placed at
//! the cursor on the bottom row, unprintable bytes are replaced by a fallback
//! glyph, and newlines scroll every row up by one.
//!
//! Every cell access goes through a volatile wrapper, so that when the grid
//! storage is device memory the compiler cannot coalesce, reorder or elide
//! the accesses.

use vstd::prelude::*;

pub mod color;
pub mod screen;
pub mod writer;

pub use color::Color;
pub use color::ColorCode;
pub use screen::Buffer;
pub use screen::ScreenChar;
pub use writer::Writer;

verus! {

/// Number of character rows on the display.
pub const BUFFER_HEIGHT: usize = 25;

/// Number of character columns on the display.
pub const BUFFER_WIDTH: usize = 80;

} // verus!
