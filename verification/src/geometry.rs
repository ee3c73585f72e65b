//! Integer pixel geometry: points, sizes, rectangles, and their
//! mathematical models.
//!
//! All drawing in this crate is expressed over these types.  The
//! mathematical model of a rectangle is [`SpecRect`], whose fields are
//! unbounded integers, so that contracts and lemmas are free of
//! machine-arithmetic noise.

use vstd::prelude::*;

verus! {

/// Mathematical model of a point: unbounded integer coordinates.
pub struct SpecPoint {
    /// Horizontal coordinate.
    pub x: int,
    /// Vertical coordinate.
    pub y: int,
}

/// Mathematical model of a rectangle: top-left corner and extent,
/// as unbounded integers.
pub struct SpecRect {
    /// Horizontal coordinate of the left edge.
    pub x: int,
    /// Vertical coordinate of the top edge.
    pub y: int,
    /// Width in pixels.
    pub w: int,
    /// Height in pixels.
    pub h: int,
}

/// A 2D point in pixel coordinates.
#[derive(Clone, Copy, Debug, PartialEq, Eq, Structural)]
pub struct Point {
    /// Horizontal coordinate, growing to the right.
    pub x: i32,
    /// Vertical coordinate, growing downwards.
    pub y: i32,
}

/// A 2D size in pixels.
#[derive(Clone, Copy, Debug, PartialEq, Eq, Structural)]
pub struct Size {
    /// Width in pixels.
    pub width: u32,
    /// Height in pixels.
    pub height: u32,
}

/// An axis-aligned rectangle: top-left corner plus size.
#[derive(Clone, Copy, Debug, PartialEq, Eq, Structural)]
pub struct Rectangle {
    /// The top-left corner.
    pub top_left: Point,
    /// The extent.
    pub size: Size,
}

impl View for Point {
    type V = SpecPoint;

    open spec fn view(&self) -> SpecPoint {
        SpecPoint { x: self.x as int, y: self.y as int }
    }
}

impl View for Rectangle {
    type V = SpecRect;

    open spec fn view(&self) -> SpecRect {
        SpecRect {
            x: self.top_left.x as int,
            y: self.top_left.y as int,
            w: self.size.width as int,
            h: self.size.height as int,
        }
    }
}

impl Point {
    /// Creates a point from its coordinates.
    pub fn new(x: i32, y: i32) -> (r: Point)
        ensures
            r@ == (SpecPoint { x: x as int, y: y as int }),
    {
        Point { x, y }
    }

    /// The origin, `(0, 0)`.
    pub fn zero() -> (r: Point)
        ensures
            r@ == (SpecPoint { x: 0, y: 0 }),
    {
        Point { x: 0, y: 0 }
    }
}

impl Size {
    /// Creates a size from width and height.
    pub fn new(width: u32, height: u32) -> (r: Size)
        ensures
            r.width == width,
            r.height == height,
    {
        Size { width, height }
    }

    /// Creates a square size.
    pub fn new_equal(side: u32) -> (r: Size)
        ensures
            r.width == side,
            r.height == side,
    {
        Size { width: side, height: side }
    }
}

impl Rectangle {
    /// Creates a rectangle from its top-left corner and size.
    pub fn new(top_left: Point, size: Size) -> (r: Rectangle)
        ensures
            r@ == (SpecRect {
                x: top_left.x as int,
                y: top_left.y as int,
                w: size.width as int,
                h: size.height as int,
            }),
    {
        Rectangle { top_left, size }
    }

    /// Returns `true` when the rectangle covers no pixel.
    pub fn is_zero_sized(&self) -> (r: bool)
        ensures
            r == (self@.w == 0 || self@.h == 0),
    {
        self.size.width == 0 || self.size.height == 0
    }
}

/// Whether the pixel `(px, py)` lies inside the rectangle.
pub open spec fn rect_contains(r: SpecRect, px: int, py: int) -> bool {
    r.x <= px < r.x + r.w && r.y <= py < r.y + r.h
}

/// Whether two rectangles share no pixel.
pub open spec fn rects_disjoint(a: SpecRect, b: SpecRect) -> bool {
    forall|px: int, py: int| !(#[trigger] rect_contains(a, px, py) && rect_contains(b, px, py))
}

/// `max(v, 1)`: the substitute extent that anchored resizing assumes
/// for a zero-sized dimension.
pub open spec fn max1(v: int) -> int {
    if v < 1 {
        1
    } else {
        v
    }
}

/// The signed shift between an anchored edge of extent `from` and the
/// same edge of extent `to`.
pub open spec fn anchor_delta(from: int, to: int) -> int {
    max1(from) - max1(to)
}

/// Division by two that truncates towards zero, as `i32` division does.
pub open spec fn tdiv2(v: int) -> int {
    if v >= 0 {
        v / 2
    } else {
        -((-v) / 2)
    }
}

/// Positions, within a box of extent `from` starting at coordinate `a`,
/// a span of extent `to` anchored at the far (right or bottom) edge.
pub open spec fn anchor_far(a: int, from: int, to: int) -> int {
    a + anchor_delta(from, to)
}

/// Positions, within a box of extent `from` starting at coordinate `a`,
/// a span of extent `to` anchored at the centre.
pub open spec fn anchor_center(a: int, from: int, to: int) -> int {
    a + tdiv2(anchor_delta(from, to))
}

/// Coordinates admitted for the corners of rectangles handed to the
/// rasterizer: small enough that scan-line arithmetic stays inside `i32`.
pub open spec fn coord_ok(v: int) -> bool {
    -0x2000_0000 <= v <= 0x2000_0000
}

/// A rectangle whose corners have admissible coordinates.
pub open spec fn rect_bounded(r: SpecRect) -> bool {
    &&& coord_ok(r.x)
    &&& coord_ok(r.x + r.w)
    &&& coord_ok(r.y)
    &&& coord_ok(r.y + r.h)
    &&& r.w >= 0
    &&& r.h >= 0
}

/// Largest magnitude admitted for a caller-supplied anchor coordinate.
/// It leaves room between itself and the rasterizer's own limit for a
/// whole digit cell of any admissible style.
pub const POSITION_LIMIT: i32 = 0x1000_0000;

/// Largest extent admitted for any single style dimension (digit width,
/// digit height, segment width, digit spacing).
pub const STYLE_LIMIT: u32 = 0x10000;

/// A caller-supplied anchor position within drawing range.
pub open spec fn position_ok(p: SpecPoint) -> bool {
    &&& -POSITION_LIMIT <= p.x <= POSITION_LIMIT
    &&& -POSITION_LIMIT <= p.y <= POSITION_LIMIT
}

/// Exec mirror of [`max1`].
pub(crate) fn max1_i32(v: u32) -> (r: i32)
    requires
        v <= STYLE_LIMIT,
    ensures
        r == max1(v as int),
{
    if v == 0 {
        1
    } else {
        v as i32
    }
}

/// Exec mirror of [`anchor_delta`].
pub(crate) fn anchor_delta_i32(from: u32, to: u32) -> (r: i32)
    requires
        from <= STYLE_LIMIT,
        to <= STYLE_LIMIT,
    ensures
        r == anchor_delta(from as int, to as int),
{
    max1_i32(from) - max1_i32(to)
}

/// Exec mirror of [`tdiv2`].
pub(crate) fn tdiv2_i32(v: i32) -> (r: i32)
    requires
        v > i32::MIN,
    ensures
        r == tdiv2(v as int),
{
    if v >= 0 {
        v / 2
    } else {
        -((-v) / 2)
    }
}

} // verus!
