//! Fluent construction of [`SevenSegmentStyle`] values.

use vstd::prelude::*;

use crate::geometry::Size;
use crate::style::{SevenSegmentStyle, SpecStyle};

verus! {

/// Seven-segment character style builder.
///
/// Starts from the default style (digit size 12 by 24, spacing 5,
/// stroke width 3, both colours unset) and overrides fields one call at
/// a time; [`build`](Self::build) yields the finished style.
#[derive(Clone, Copy, Debug)]
pub struct SevenSegmentStyleBuilder<C> {
    style: SevenSegmentStyle<C>,
}

impl<C: Copy> SevenSegmentStyleBuilder<C> {
    /// The style this builder currently holds.
    pub closed spec fn spec_style(&self) -> SpecStyle<C> {
        self.style@
    }

    /// Creates a new builder holding the default style.
    pub fn new() -> (r: SevenSegmentStyleBuilder<C>)
        ensures
            r.spec_style() == (SpecStyle::<C> {
                w: 12,
                h: 24,
                spacing: 5,
                sw: 3,
                on: None,
                off: None,
            }),
    {
        SevenSegmentStyleBuilder {
            style: SevenSegmentStyle {
                digit_size: Size { width: 12, height: 24 },
                digit_spacing: 5,
                segment_width: 3,
                segment_color: None,
                inactive_segment_color: None,
            },
        }
    }

    /// Creates a builder that starts from an existing style.
    pub fn from_style(style: &SevenSegmentStyle<C>) -> (r: SevenSegmentStyleBuilder<C>)
        ensures
            r.spec_style() == style@,
    {
        SevenSegmentStyleBuilder { style: *style }
    }

    /// Sets the digit size.
    pub fn digit_size(self, digit_size: Size) -> (r: SevenSegmentStyleBuilder<C>)
        ensures
            r.spec_style() == (SpecStyle {
                w: digit_size.width as int,
                h: digit_size.height as int,
                ..self.spec_style()
            }),
    {
        let mut builder = self;
        builder.style.digit_size = digit_size;
        builder
    }

    /// Sets the digit spacing.
    pub fn digit_spacing(self, digit_spacing: u32) -> (r: SevenSegmentStyleBuilder<C>)
        ensures
            r.spec_style() == (SpecStyle { spacing: digit_spacing as int, ..self.spec_style() }),
    {
        let mut builder = self;
        builder.style.digit_spacing = digit_spacing;
        builder
    }

    /// Sets the segment width.
    pub fn segment_width(self, segment_width: u32) -> (r: SevenSegmentStyleBuilder<C>)
        ensures
            r.spec_style() == (SpecStyle { sw: segment_width as int, ..self.spec_style() }),
    {
        let mut builder = self;
        builder.style.segment_width = segment_width;
        builder
    }

    /// Sets the segment color.
    pub fn segment_color(self, segment_color: C) -> (r: SevenSegmentStyleBuilder<C>)
        ensures
            r.spec_style() == (SpecStyle { on: Some(segment_color), ..self.spec_style() }),
    {
        let mut builder = self;
        builder.style.segment_color = Some(segment_color);
        builder
    }

    /// Resets the segment color to transparent.
    pub fn reset_segment_color(self) -> (r: SevenSegmentStyleBuilder<C>)
        ensures
            r.spec_style() == (SpecStyle { on: None, ..self.spec_style() }),
    {
        let mut builder = self;
        builder.style.segment_color = None;
        builder
    }

    /// Sets the inactive segment color.
    pub fn inactive_segment_color(self, inactive_segment_color: C) -> (r:
        SevenSegmentStyleBuilder<C>)
        ensures
            r.spec_style() == (SpecStyle {
                off: Some(inactive_segment_color),
                ..self.spec_style()
            }),
    {
        let mut builder = self;
        builder.style.inactive_segment_color = Some(inactive_segment_color);
        builder
    }

    /// Resets the inactive segment color to transparent.
    pub fn reset_inactive_segment_color(self) -> (r: SevenSegmentStyleBuilder<C>)
        ensures
            r.spec_style() == (SpecStyle { off: None, ..self.spec_style() }),
    {
        let mut builder = self;
        builder.style.inactive_segment_color = None;
        builder
    }

    /// Builds the text style.
    pub fn build(self) -> (r: SevenSegmentStyle<C>)
        ensures
            r@ == self.spec_style(),
    {
        self.style
    }
}

impl<C: Copy> Default for SevenSegmentStyleBuilder<C> {
    /// Same as [`SevenSegmentStyleBuilder::new`].
    fn default() -> (r: SevenSegmentStyleBuilder<C>)
        ensures
            r.spec_style() == (SpecStyle::<C> {
                w: 12,
                h: 24,
                spacing: 5,
                sw: 3,
                on: None,
                off: None,
            }),
    {
        SevenSegmentStyleBuilder::new()
    }
}

} // verus!
