//! The digit composer: lays one digit cell out as up to seven tapered
//! segments and rasterizes the active (and, optionally, the inactive)
//! ones.
//!
//! The cell is a `digit_size` rectangle anchored at a position.  The
//! horizontal segments A, D and G span the full cell width with the
//! stroke width as height; the vertical segments B, C, E and F are a
//! stroke wide and roughly half the cell tall, the bottom pair rounding
//! up so that top and bottom halves overlap by exactly the stroke width
//! at the middle, where segment G sits.  Every segment rectangle is
//! shrunk by [`reduced_rect`] before rasterizing so that neighbouring
//! segments do not touch at shared corners.

use vstd::prelude::*;

use crate::geometry::{
    anchor_center, anchor_delta_i32, anchor_far, tdiv2_i32, Point, Rectangle, Size, SpecPoint,
    SpecRect, POSITION_LIMIT, STYLE_LIMIT,
};
use crate::segment::{append_ops, ops_view, reduced_rect, segment_ops, FillOp, Segment, SpecOp};
use crate::segments::{mask_contains, Segments, SEG_A, SEG_B, SEG_C, SEG_D, SEG_E, SEG_F, SEG_G};
use crate::style::{state_color_spec, style_ok, SevenSegmentStyle, SpecStyle};

verus! {

/// Height of the upper vertical segments B and F: half of cell height
/// plus stroke width, rounding down.
pub open spec fn upper_height<C>(s: SpecStyle<C>) -> int {
    (s.h + s.sw) / 2
}

/// Height of the lower vertical segments C and E: half of cell height
/// plus stroke width, rounding up.  Together with [`upper_height`] this
/// spans `h + sw` exactly, so the two halves overlap by the stroke
/// width at the middle.
pub open spec fn lower_height<C>(s: SpecStyle<C>) -> int {
    (s.h + s.sw + 1) / 2
}

/// Raw rectangle of segment A (top bar).
pub open spec fn seg_rect_a<C>(p: SpecPoint, s: SpecStyle<C>) -> SpecRect {
    SpecRect { x: p.x, y: p.y, w: s.w, h: s.sw }
}

/// Raw rectangle of segment B (upper right bar).
pub open spec fn seg_rect_b<C>(p: SpecPoint, s: SpecStyle<C>) -> SpecRect {
    SpecRect { x: anchor_far(p.x, s.w, s.sw), y: p.y, w: s.sw, h: upper_height(s) }
}

/// Raw rectangle of segment C (lower right bar).
pub open spec fn seg_rect_c<C>(p: SpecPoint, s: SpecStyle<C>) -> SpecRect {
    SpecRect {
        x: anchor_far(p.x, s.w, s.sw),
        y: anchor_far(p.y, s.h, lower_height(s)),
        w: s.sw,
        h: lower_height(s),
    }
}

/// Raw rectangle of segment D (bottom bar).
pub open spec fn seg_rect_d<C>(p: SpecPoint, s: SpecStyle<C>) -> SpecRect {
    SpecRect { x: p.x, y: anchor_far(p.y, s.h, s.sw), w: s.w, h: s.sw }
}

/// Raw rectangle of segment E (lower left bar).
pub open spec fn seg_rect_e<C>(p: SpecPoint, s: SpecStyle<C>) -> SpecRect {
    SpecRect { x: p.x, y: anchor_far(p.y, s.h, lower_height(s)), w: s.sw, h: lower_height(s) }
}

/// Raw rectangle of segment F (upper left bar).
pub open spec fn seg_rect_f<C>(p: SpecPoint, s: SpecStyle<C>) -> SpecRect {
    SpecRect { x: p.x, y: p.y, w: s.sw, h: upper_height(s) }
}

/// Raw rectangle of segment G (middle bar).
pub open spec fn seg_rect_g<C>(p: SpecPoint, s: SpecStyle<C>) -> SpecRect {
    SpecRect { x: p.x, y: anchor_center(p.y, s.h, s.sw), w: s.w, h: s.sw }
}

/// The fill commands of one segment of a digit: the reduced rectangle
/// rasterized in the state's colour, or nothing when that colour is
/// absent.
pub open spec fn maybe_segment_ops<C>(s: SpecStyle<C>, active: bool, raw: SpecRect) -> Seq<
    SpecOp<C>,
> {
    match state_color_spec(s, active) {
        Some(color) => segment_ops(reduced_rect(raw), color),
        None => Seq::empty(),
    }
}

/// The fill commands of one whole digit cell: its seven segments in
/// order A, B, C, D, E, F, G, each present when its state's colour is.
pub open spec fn digit_ops<C>(bits: u8, p: SpecPoint, s: SpecStyle<C>) -> Seq<SpecOp<C>> {
    maybe_segment_ops(s, mask_contains(bits, SEG_A), seg_rect_a(p, s)) + maybe_segment_ops(
        s,
        mask_contains(bits, SEG_B),
        seg_rect_b(p, s),
    ) + maybe_segment_ops(s, mask_contains(bits, SEG_C), seg_rect_c(p, s)) + maybe_segment_ops(
        s,
        mask_contains(bits, SEG_D),
        seg_rect_d(p, s),
    ) + maybe_segment_ops(s, mask_contains(bits, SEG_E), seg_rect_e(p, s)) + maybe_segment_ops(
        s,
        mask_contains(bits, SEG_F),
        seg_rect_f(p, s),
    ) + maybe_segment_ops(s, mask_contains(bits, SEG_G), seg_rect_g(p, s))
}

/// The anchor of the digit cell to the right of a cell at `p`:
/// one cell width plus one spacing further along the row.
pub open spec fn digit_advance<C>(p: SpecPoint, s: SpecStyle<C>) -> SpecPoint {
    SpecPoint { x: p.x + s.w + s.spacing, y: p.y }
}

/// An anchor position from which a whole digit cell of any admissible
/// style stays within the rasterizer's coordinate range.
pub open spec fn digit_anchor_ok(p: SpecPoint) -> bool {
    &&& -(POSITION_LIMIT + STYLE_LIMIT) <= p.x <= POSITION_LIMIT + STYLE_LIMIT
    &&& -(POSITION_LIMIT + STYLE_LIMIT) <= p.y <= POSITION_LIMIT + STYLE_LIMIT
}

/// Single digit drawable: a flag set anchored at a position.
#[derive(Clone, Copy, Debug, PartialEq, Eq, Structural)]
pub struct Digit {
    segments: Segments,
    position: Point,
}

impl Digit {
    /// The flag set drawn by this digit.
    pub closed spec fn spec_segments(&self) -> Segments {
        self.segments
    }

    /// The anchor of this digit's cell.
    pub closed spec fn spec_position(&self) -> Point {
        self.position
    }

    /// Creates a new digit.
    pub fn new(segments: Segments, position: Point) -> (r: Digit)
        ensures
            r.spec_segments() == segments,
            r.spec_position() == position,
    {
        Digit { segments, position }
    }

    /// Rasterizes the digit cell in the given style.
    ///
    /// Returns the fill commands of the cell's segments, in order A to
    /// G, and the anchor for the next digit: one cell width plus one
    /// spacing to the right, whatever was drawn (layout is monospaced).
    #[verifier::rlimit(100)]
    pub fn rasterize<C: Copy>(&self, style: &SevenSegmentStyle<C>) -> (r: (Vec<FillOp<C>>, Point))
        requires
            style_ok(style@),
            digit_anchor_ok(self.spec_position()@),
        ensures
            ops_view(r.0) == digit_ops(self.spec_segments()@, self.spec_position()@, style@),
            r.1@ == digit_advance(self.spec_position()@, style@),
    {
        let x = self.position.x;
        let y = self.position.y;
        let w = style.digit_size.width;
        let h = style.digit_size.height;
        let sw = style.segment_width;
        let upper: u32 = (h + sw) / 2;
        let lower: u32 = (h + sw + 1) / 2;
        let dx_right: i32 = anchor_delta_i32(w, sw);
        let dy_bottom: i32 = anchor_delta_i32(h, sw);
        let dy_lower: i32 = anchor_delta_i32(h, lower);
        let dy_center: i32 = tdiv2_i32(dy_bottom);

        let ghost p = self.spec_position()@;
        let ghost s = style@;
        let ghost bits = self.spec_segments()@;
        let ghost o_a = maybe_segment_ops(s, mask_contains(bits, SEG_A), seg_rect_a(p, s));
        let ghost o_b = maybe_segment_ops(s, mask_contains(bits, SEG_B), seg_rect_b(p, s));
        let ghost o_c = maybe_segment_ops(s, mask_contains(bits, SEG_C), seg_rect_c(p, s));
        let ghost o_d = maybe_segment_ops(s, mask_contains(bits, SEG_D), seg_rect_d(p, s));
        let ghost o_e = maybe_segment_ops(s, mask_contains(bits, SEG_E), seg_rect_e(p, s));
        let ghost o_f = maybe_segment_ops(s, mask_contains(bits, SEG_F), seg_rect_f(p, s));
        let ghost o_g = maybe_segment_ops(s, mask_contains(bits, SEG_G), seg_rect_g(p, s));

        let mut ops: Vec<FillOp<C>> = Vec::new();
        proof {
            assert(ops_view(ops) =~= Seq::<SpecOp<C>>::empty());
        }

        if let Some(color) = style.state_color(self.segments.contains(Segments::a())) {
            let rect = Rectangle {
                top_left: Point { x, y },
                size: Size { width: w, height: sw },
            };
            assert(rect@ == seg_rect_a(p, s));
            let v = Segment::with_reduced_size(rect, color).rasterize();
            assert(ops_view(v) == o_a);
            append_ops(&mut ops, v);
        } else {
            proof {
                assert(ops_view(ops) + o_a =~= ops_view(ops));
            }
        }
        let ghost acc_a = ops_view(ops);
        assert(acc_a == o_a);

        if let Some(color) = style.state_color(self.segments.contains(Segments::b())) {
            let rect = Rectangle {
                top_left: Point { x: x + dx_right, y },
                size: Size { width: sw, height: upper },
            };
            assert(rect@ == seg_rect_b(p, s));
            let v = Segment::with_reduced_size(rect, color).rasterize();
            assert(ops_view(v) == o_b);
            append_ops(&mut ops, v);
        } else {
            proof {
                assert(ops_view(ops) + o_b =~= ops_view(ops));
            }
        }
        let ghost acc_b = ops_view(ops);
        assert(acc_b == o_a + o_b);

        if let Some(color) = style.state_color(self.segments.contains(Segments::c())) {
            let rect = Rectangle {
                top_left: Point { x: x + dx_right, y: y + dy_lower },
                size: Size { width: sw, height: lower },
            };
            assert(rect@ == seg_rect_c(p, s));
            let v = Segment::with_reduced_size(rect, color).rasterize();
            assert(ops_view(v) == o_c);
            append_ops(&mut ops, v);
        } else {
            proof {
                assert(ops_view(ops) + o_c =~= ops_view(ops));
            }
        }
        let ghost acc_c = ops_view(ops);
        assert(acc_c == o_a + o_b + o_c);

        if let Some(color) = style.state_color(self.segments.contains(Segments::d())) {
            let rect = Rectangle {
                top_left: Point { x, y: y + dy_bottom },
                size: Size { width: w, height: sw },
            };
            assert(rect@ == seg_rect_d(p, s));
            let v = Segment::with_reduced_size(rect, color).rasterize();
            assert(ops_view(v) == o_d);
            append_ops(&mut ops, v);
        } else {
            proof {
                assert(ops_view(ops) + o_d =~= ops_view(ops));
            }
        }
        let ghost acc_d = ops_view(ops);
        assert(acc_d == o_a + o_b + o_c + o_d);

        if let Some(color) = style.state_color(self.segments.contains(Segments::e())) {
            let rect = Rectangle {
                top_left: Point { x, y: y + dy_lower },
                size: Size { width: sw, height: lower },
            };
            assert(rect@ == seg_rect_e(p, s));
            let v = Segment::with_reduced_size(rect, color).rasterize();
            assert(ops_view(v) == o_e);
            append_ops(&mut ops, v);
        } else {
            proof {
                assert(ops_view(ops) + o_e =~= ops_view(ops));
            }
        }
        let ghost acc_e = ops_view(ops);
        assert(acc_e == o_a + o_b + o_c + o_d + o_e);

        if let Some(color) = style.state_color(self.segments.contains(Segments::f())) {
            let rect = Rectangle {
                top_left: Point { x, y },
                size: Size { width: sw, height: upper },
            };
            assert(rect@ == seg_rect_f(p, s));
            let v = Segment::with_reduced_size(rect, color).rasterize();
            assert(ops_view(v) == o_f);
            append_ops(&mut ops, v);
        } else {
            proof {
                assert(ops_view(ops) + o_f =~= ops_view(ops));
            }
        }
        let ghost acc_f = ops_view(ops);
        assert(acc_f == o_a + o_b + o_c + o_d + o_e + o_f);

        if let Some(color) = style.state_color(self.segments.contains(Segments::g())) {
            let rect = Rectangle {
                top_left: Point { x, y: y + dy_center },
                size: Size { width: w, height: sw },
            };
            assert(rect@ == seg_rect_g(p, s));
            let v = Segment::with_reduced_size(rect, color).rasterize();
            assert(ops_view(v) == o_g);
            append_ops(&mut ops, v);
        } else {
            proof {
                assert(ops_view(ops) + o_g =~= ops_view(ops));
            }
        }
        let ghost acc_g = ops_view(ops);
        assert(acc_g == o_a + o_b + o_c + o_d + o_e + o_f + o_g);

        assert(ops_view(ops) == digit_ops(bits, p, s));
        let next = Point { x: x + w as i32 + style.digit_spacing as i32, y };
        (ops, next)
    }
}

} // verus!
