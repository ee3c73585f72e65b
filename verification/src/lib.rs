//! Seven-segment text rendering, modelled as pure geometry.
//!
//! The crate computes, for a text string and a style, the exact sequence of
//! rectangle-fill commands that paint the text as seven-segment digits.
//! A host that owns a pixel canvas replays those commands to draw.

pub mod builder;
pub mod digit;
pub mod geometry;
pub mod laws;
pub mod segment;
pub mod segments;
pub mod style;

pub use builder::SevenSegmentStyleBuilder;
pub use digit::Digit;
pub use geometry::{Point, Rectangle, Size};
pub use segment::{FillOp, Segment};
pub use segments::{Segments, UnsupportedCharacter};
pub use style::{Baseline, SevenSegmentStyle, TextMetrics};
