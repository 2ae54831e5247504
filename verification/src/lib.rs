//! Text as vector paths.
//!
//! A text that a font has laid out is a line of glyphs. Each glyph comes with the
//! pixel rectangle that encloses it and with its outline: contours made of
//! straight lines and of quadratic and cubic curves. This crate writes the
//! outlines of such a line as the path data of one SVG `path` element and
//! computes the rectangle that encloses the whole line.
//!
//! - [`outline`] holds the [`Collector`], which writes the outline of one glyph,
//!   segment by segment, at the place of the glyph.
//! - [`glyph`] walks a line of glyphs with it. A glyph without a bounding box,
//!   such as a space, is passed over.
//! - [`text`] holds the [`Builder`] with the settings of a text, and the
//!   [`Text`] that it builds: the `path` element and the bounding box.
//! - [`decimal`] writes coordinates as decimal numbers, and [`geometry`] holds
//!   points and rectangles.
//! - [`reading`] says how path data is read, and proves that what was written
//!   reads back as the commands that were written.
//!
//! All numbers are integers. The points of an outline count thousandths of a
//! pixel; bounding boxes lie on the pixel grid and count whole pixels. What is
//! written is exact: the text of a coordinate reads back as that coordinate.
//!
//! Laying out a text is left to a font library, whose glyphs are handed in as
//! [`Glyph`] values. The `path` element is that of the `svg` crate; what this
//! crate relies on of it is stated with the two functions in [`text`] that call it.

pub mod decimal;
pub mod geometry;
pub mod glyph;
pub mod outline;
pub mod reading;
pub mod text;

pub use geometry::{Pixel, Point, Rect};
pub use glyph::Glyph;
pub use outline::{Collector, Segment};
pub use text::{Builder, Text};
