//! Software rendering of a terminal cell grid into an RGB pixel buffer.
//!
//! The crate turns a grid of styled cells into pixels: colours are resolved per
//! cell, backgrounds are filled, and glyph coverage bitmaps obtained from a
//! [`glyph::GlyphSource`] are blended on top.

pub mod blink;
pub mod cell;
pub mod colors;
pub mod compositor;
pub mod decoration;
pub mod glyph;
pub mod grid;
pub mod laws;
pub mod pixmap;
pub mod scale;
pub mod soft_backend;
pub mod surface;
