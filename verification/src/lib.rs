//! Layout and viewport engine for a scrollable hexadecimal/ASCII dump of a
//! byte buffer.
//!
//! Given a rectangular drawing region and a data length, [`render_positions`]
//! derives a self-consistent column geometry: the address column width, the
//! number of bytes per row (always a power of two), the x-positions of the
//! hex and ASCII blocks, and the inverse mapping from a clicked cell back to
//! a data address. [`state`] keeps a scroll offset and an optional selected
//! address valid and in view across renders. [`render`] reconciles the state
//! against a fresh geometry and produces the visible text rows. [`laws`]
//! holds the proofs that tie them together.
//!
//! The host that owns the drawing surface converts its regions into
//! [`render_positions::Rect`], drives the render through these functions, and
//! writes the resulting cells itself; everything here is pure, saturating
//! integer and character arithmetic.

pub mod arith;
pub mod laws;
pub mod render;
pub mod render_positions;
pub mod state;
