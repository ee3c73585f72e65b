//! The segment rasterizer: turns one rectangle into the scan lines of a
//! tapered (diamond-chamfered) bar.
//!
//! A segment is painted as a stack of one-pixel scan lines along its long
//! axis.  Each scan line is inset from both short ends by the distance of
//! the line to the centre of the bar, halved, which tapers the bar to a
//! point (odd short extent) or a two-pixel tip (even short extent).

use vstd::prelude::*;

use crate::geometry::{rect_bounded, Point, Rectangle, Size, SpecRect};

verus! {

/// Mathematical model of one fill command.
pub struct SpecOp<C> {
    /// The rectangle to fill.
    pub rect: SpecRect,
    /// The colour to fill it with.
    pub color: C,
}

/// One rectangle-fill command against a pixel surface.
///
/// Drawing functions return sequences of these; the host replays them,
/// in order, onto its canvas.
#[derive(Clone, Copy, Debug, PartialEq, Eq)]
pub struct FillOp<C> {
    /// The rectangle to fill.
    pub rect: Rectangle,
    /// The colour to fill it with.
    pub color: C,
}

impl<C> View for FillOp<C> {
    type V = SpecOp<C>;

    open spec fn view(&self) -> SpecOp<C> {
        SpecOp { rect: self.rect@, color: self.color }
    }
}

/// The model of a command list: each command's mathematical view, in order.
pub open spec fn ops_view<C>(v: Vec<FillOp<C>>) -> Seq<SpecOp<C>> {
    v@.map_values(|op: FillOp<C>| op@)
}

/// Inset of scan line `i` (counted from the near edge) of a bar whose
/// short extent is `short`: the distance of the line to the centre of
/// the bar, halved.
pub open spec fn taper_offset(i: int, short: int) -> int {
    abs_int(2 * i - (short - 1)) / 2
}

/// Absolute value.
pub open spec fn abs_int(v: int) -> int {
    if v >= 0 {
        v
    } else {
        -v
    }
}

/// Scan line `i` (row `r.y + i`) of a horizontal bar.
pub open spec fn h_scanline(r: SpecRect, i: int) -> SpecRect {
    let off = taper_offset(i, r.h);
    SpecRect { x: r.x + off, y: r.y + i, w: r.w - 2 * off, h: 1 }
}

/// Scan line `i` (column `r.x + i`) of a vertical bar.
pub open spec fn v_scanline(r: SpecRect, i: int) -> SpecRect {
    let off = taper_offset(i, r.w);
    SpecRect { x: r.x + i, y: r.y + off, w: 1, h: r.h - 2 * off }
}

/// The fill commands that rasterize the rectangle `r` as a tapered bar
/// of colour `color`.
///
/// A zero-sized rectangle produces no command.  A wide rectangle is a
/// horizontal bar, painted row by row from the top; any other is a
/// vertical bar, painted column by column from the left.
pub open spec fn segment_ops<C>(r: SpecRect, color: C) -> Seq<SpecOp<C>> {
    if r.w <= 0 || r.h <= 0 {
        Seq::empty()
    } else if r.w > r.h {
        Seq::new(r.h as nat, |i: int| SpecOp { rect: h_scanline(r, i), color })
    } else {
        Seq::new(r.w as nat, |i: int| SpecOp { rect: v_scanline(r, i), color })
    }
}

/// The shrink applied to a raw segment rectangle so that a vertical and
/// a horizontal segment sharing a corner do not visually overlap: the
/// rectangle is inset along its long axis by half its short extent plus
/// one, from both ends.
///
/// A rectangle too small for the inset is clamped to zero extent rather
/// than wrapped below zero.
pub open spec fn reduced_rect(r: SpecRect) -> SpecRect {
    if r.w > r.h {
        let off = r.h / 2 + 1;
        SpecRect { x: r.x + off, y: r.y, w: clamp0(r.w - 2 * off), h: r.h }
    } else {
        let off = r.w / 2 + 1;
        SpecRect { x: r.x, y: r.y + off, w: r.w, h: clamp0(r.h - 2 * off) }
    }
}

/// Clamps a negative extent to zero.
pub open spec fn clamp0(v: int) -> int {
    if v < 0 {
        0
    } else {
        v
    }
}

/// Appends the commands of one drawing step to a command list.
pub(crate) fn append_ops<C>(ops: &mut Vec<FillOp<C>>, v: Vec<FillOp<C>>)
    ensures
        ops_view(*final(ops)) == ops_view(*old(ops)) + ops_view(v),
{
    let ghost expected = ops_view(*ops) + ops_view(v);
    let mut tail = v;
    ops.append(&mut tail);
    proof {
        assert(ops_view(*ops) =~= expected);
    }
}

/// One tapered bar, ready to rasterize.
#[derive(Clone, Copy, Debug)]
pub struct Segment<C> {
    rect: Rectangle,
    color: C,
}

impl<C> Segment<C> {
    /// The bounding rectangle of the bar.
    pub closed spec fn spec_rect(&self) -> SpecRect {
        self.rect@
    }

    /// The colour of the bar.
    pub closed spec fn spec_color(&self) -> C {
        self.color
    }

    /// Creates a segment that fills the whole rectangle.
    pub fn new(rect: Rectangle, color: C) -> (r: Segment<C>)
        ensures
            r.spec_rect() == rect@,
            r.spec_color() == color,
    {
        Segment { rect, color }
    }

    /// Creates a segment over the rectangle shrunk by [`reduced_rect`],
    /// so that a vertical and a horizontal segment with a shared corner
    /// do not overlap.
    pub fn with_reduced_size(rect: Rectangle, color: C) -> (r: Segment<C>)
        requires
            rect_bounded(rect@),
        ensures
            r.spec_rect() == reduced_rect(rect@),
            r.spec_color() == color,
    {
        let w = rect.size.width;
        let h = rect.size.height;
        if w > h {
            let off = h / 2 + 1;
            let reduced = Rectangle {
                top_left: Point { x: rect.top_left.x + off as i32, y: rect.top_left.y },
                size: Size {
                    width: if w >= 2 * off {
                        w - 2 * off
                    } else {
                        0
                    },
                    height: h,
                },
            };
            Segment { rect: reduced, color }
        } else {
            let off = w / 2 + 1;
            let reduced = Rectangle {
                top_left: Point { x: rect.top_left.x, y: rect.top_left.y + off as i32 },
                size: Size {
                    width: w,
                    height: if h >= 2 * off {
                        h - 2 * off
                    } else {
                        0
                    },
                },
            };
            Segment { rect: reduced, color }
        }
    }
}

impl<C: Copy> Segment<C> {
    /// Rasterizes the bar into its scan-line fill commands, in increasing
    /// order along the long axis.
    pub fn rasterize(&self) -> (r: Vec<FillOp<C>>)
        requires
            rect_bounded(self.spec_rect()),
        ensures
            ops_view(r) == segment_ops(self.spec_rect(), self.spec_color()),
    {
        let mut ops: Vec<FillOp<C>> = Vec::new();
        let x = self.rect.top_left.x;
        let y = self.rect.top_left.y;
        let w = self.rect.size.width;
        let h = self.rect.size.height;
        if w == 0 || h == 0 {
            assert(ops_view(ops) =~= segment_ops(self.spec_rect(), self.spec_color()));
            return ops;
        }
        if w > h {
            let mut i: u32 = 0;
            while i < h
                invariant
                    rect_bounded(self.spec_rect()),
                    self.spec_rect() == (SpecRect { x: x as int, y: y as int, w: w as int, h: h as int }),
                    0 < h < w,
                    i <= h,
                    ops_view(ops) =~= segment_ops(self.spec_rect(), self.spec_color()).take(i as int),
                decreases h - i,
            {
                let d: i32 = 2 * (i as i32) - (h as i32 - 1);
                let off: i32 = if d >= 0 {
                    d / 2
                } else {
                    (-d) / 2
                };
                assert(off == taper_offset(i as int, h as int));
                assert(2 * off <= h - 1);
                let op = FillOp {
                    rect: Rectangle {
                        top_left: Point { x: x + off, y: y + i as i32 },
                        size: Size { width: w - 2 * (off as u32), height: 1 },
                    },
                    color: self.color,
                };
                assert(op@.rect == h_scanline(self.spec_rect(), i as int));
                let ghost prev = ops_view(ops);
                ops.push(op);
                proof {
                    let full = segment_ops(self.spec_rect(), self.spec_color());
                    assert(op@ == full[i as int]);
                    assert(ops_view(ops) =~= prev.push(op@));
                    assert(prev.push(op@) =~= full.take(i as int + 1));
                }
                i = i + 1;
            }
            assert(ops_view(ops) =~= segment_ops(self.spec_rect(), self.spec_color()));
        } else {
            let mut i: u32 = 0;
            while i < w
                invariant
                    rect_bounded(self.spec_rect()),
                    self.spec_rect() == (SpecRect { x: x as int, y: y as int, w: w as int, h: h as int }),
                    0 < w <= h,
                    i <= w,
                    ops_view(ops) =~= segment_ops(self.spec_rect(), self.spec_color()).take(i as int),
                decreases w - i,
            {
                let d: i32 = 2 * (i as i32) - (w as i32 - 1);
                let off: i32 = if d >= 0 {
                    d / 2
                } else {
                    (-d) / 2
                };
                assert(off == taper_offset(i as int, w as int));
                assert(2 * off <= w - 1);
                let op = FillOp {
                    rect: Rectangle {
                        top_left: Point { x: x + i as i32, y: y + off },
                        size: Size { width: 1, height: h - 2 * (off as u32) },
                    },
                    color: self.color,
                };
                assert(op@.rect == v_scanline(self.spec_rect(), i as int));
                let ghost prev = ops_view(ops);
                ops.push(op);
                proof {
                    let full = segment_ops(self.spec_rect(), self.spec_color());
                    assert(op@ == full[i as int]);
                    assert(ops_view(ops) =~= prev.push(op@));
                    assert(prev.push(op@) =~= full.take(i as int + 1));
                }
                i = i + 1;
            }
            assert(ops_view(ops) =~= segment_ops(self.spec_rect(), self.spec_color()));
        }
        ops
    }
}

} // verus!
