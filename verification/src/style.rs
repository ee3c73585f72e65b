//! The style type: digit cell size, spacing, stroke width and colours,
//! with the text-layout metrics that depend on it.
//!
//! A style is a plain immutable value, copied into each draw call.  It
//! is generic over an opaque colour type `C` that the renderer never
//! inspects.

use vstd::prelude::*;

use crate::digit::{digit_anchor_ok, digit_ops, Digit};
use crate::geometry::{
    position_ok, Point, Rectangle, Size, SpecPoint, SpecRect, POSITION_LIMIT, STYLE_LIMIT,
};
use crate::segment::{append_ops, ops_view, FillOp, SpecOp};
use crate::segments::{glyph_bits, Segments};

verus! {

/// Vertical reference line that a start position is measured from.
#[derive(Clone, Copy, Debug, PartialEq, Eq, Structural)]
pub enum Baseline {
    /// The position is the top edge of the digit cell.
    Top,
    /// The position is the bottom row of the digit cell.
    Bottom,
    /// The position is the middle row of the digit cell.
    Middle,
    /// Same convention as `Bottom`.
    Alphabetic,
}

/// Mathematical model of a style: unbounded integers plus the two
/// optional colours.
pub struct SpecStyle<C> {
    /// Digit cell width.
    pub w: int,
    /// Digit cell height.
    pub h: int,
    /// Spacing between adjacent digit cells.
    pub spacing: int,
    /// Segment stroke width.
    pub sw: int,
    /// Colour of active segments, or `None` to skip them.
    pub on: Option<C>,
    /// Colour of inactive segments, or `None` to skip them.
    pub off: Option<C>,
}

/// Seven-segment character style.
///
/// Use [`SevenSegmentStyleBuilder`](crate::SevenSegmentStyleBuilder) to
/// build styles.
#[derive(Clone, Copy, Debug, PartialEq, Eq)]
pub struct SevenSegmentStyle<C> {
    /// The size of each digit.
    pub digit_size: Size,
    /// The spacing between adjacent digits.
    pub digit_spacing: u32,
    /// The width of the segments.
    pub segment_width: u32,
    /// The color of active segments.
    pub segment_color: Option<C>,
    /// The color of inactive segments.
    pub inactive_segment_color: Option<C>,
}

impl<C> View for SevenSegmentStyle<C> {
    type V = SpecStyle<C>;

    open spec fn view(&self) -> SpecStyle<C> {
        SpecStyle {
            w: self.digit_size.width as int,
            h: self.digit_size.height as int,
            spacing: self.digit_spacing as int,
            sw: self.segment_width as int,
            on: self.segment_color,
            off: self.inactive_segment_color,
        }
    }
}

/// A style whose dimensions all lie within [`STYLE_LIMIT`], so that
/// layout arithmetic stays inside the machine integers.
pub open spec fn style_ok<C>(s: SpecStyle<C>) -> bool {
    &&& 0 <= s.w <= STYLE_LIMIT
    &&& 0 <= s.h <= STYLE_LIMIT
    &&& 0 <= s.spacing <= STYLE_LIMIT
    &&& 0 <= s.sw <= STYLE_LIMIT
}

/// The colour a segment is painted with: the active colour for a lit
/// segment, the inactive colour otherwise; `None` means the segment is
/// skipped.
pub open spec fn state_color_spec<C>(s: SpecStyle<C>, active: bool) -> Option<C> {
    if active {
        s.on
    } else {
        s.off
    }
}

/// Vertical offset between the line position and the top edge of the
/// digit cell, for a cell of height `h`.
pub open spec fn baseline_offset_of(h: int, baseline: Baseline) -> int {
    let bottom = if h >= 1 {
        h - 1
    } else {
        0
    };
    match baseline {
        Baseline::Top => 0,
        Baseline::Bottom => bottom,
        Baseline::Alphabetic => bottom,
        Baseline::Middle => bottom / 2,
    }
}

/// Horizontal advance of one character: stroke width for the two dot
/// glyphs (`:` and `.`), a whole digit cell for everything else, plus
/// the digit spacing either way.
pub open spec fn char_advance<C>(c: char, s: SpecStyle<C>) -> int {
    if c == ':' || c == '.' {
        s.sw + s.spacing
    } else {
        s.w + s.spacing
    }
}

/// Total horizontal advance of a text: the sum of its characters'
/// advances.
pub open spec fn advance_width<C>(text: Seq<char>, s: SpecStyle<C>) -> int
    decreases text.len(),
{
    if text.len() == 0 {
        0
    } else {
        char_advance(text[0], s) + advance_width(text.skip(1), s)
    }
}

/// Measured width of a text: the total advance less the one trailing
/// digit spacing.
pub open spec fn measure_width<C>(text: Seq<char>, s: SpecStyle<C>) -> int {
    if text.len() == 0 {
        0
    } else {
        advance_width(text, s) - s.spacing
    }
}

/// A text never advances backwards: every character's advance is
/// non-negative.
pub proof fn lemma_advance_width_nonneg<C>(text: Seq<char>, s: SpecStyle<C>)
    requires
        style_ok(s),
    ensures
        advance_width(text, s) >= 0,
    decreases text.len(),
{
    if text.len() > 0 {
        lemma_advance_width_nonneg(text.skip(1), s);
    }
}

/// Text measurement: the bounding box of the text laid out from a
/// position, and the position where a following draw would continue.
#[derive(Clone, Copy, Debug, PartialEq, Eq)]
pub struct TextMetrics {
    /// Smallest rectangle that contains the rendered text.
    pub bounding_box: Rectangle,
    /// Start position for a following piece of text.
    ///
    /// Unlike the position that a draw returns, this stops short of the
    /// trailing digit spacing.
    pub next_position: Point,
}

impl<C: Copy> SevenSegmentStyle<C> {
    /// Returns the fill color for the given segment state.
    pub fn state_color(&self, state: bool) -> (r: Option<C>)
        ensures
            r == state_color_spec(self@, state),
    {
        if state {
            self.segment_color
        } else {
            self.inactive_segment_color
        }
    }

    /// Returns the vertical offset between the line position and the top
    /// edge of the bounding box.
    pub fn baseline_offset(&self, baseline: Baseline) -> (r: u32)
        ensures
            r == baseline_offset_of(self@.h, baseline),
    {
        let bottom = if self.digit_size.height >= 1 {
            self.digit_size.height - 1
        } else {
            0
        };
        match baseline {
            Baseline::Top => 0,
            Baseline::Bottom => bottom,
            Baseline::Alphabetic => bottom,
            Baseline::Middle => bottom / 2,
        }
    }

    /// Vertical distance between the top edges of two lines of text.
    pub fn line_height(&self) -> (r: u32)
        requires
            style_ok(self@),
        ensures
            r == self@.h + self@.spacing,
    {
        self.digit_size.height + self.digit_spacing
    }

    /// Advances a position horizontally by a whitespace width, without
    /// drawing.
    pub fn draw_whitespace(&self, width: u32, position: Point, _baseline: Baseline) -> (r: Point)
        requires
            position_ok(position@),
            width <= STYLE_LIMIT,
        ensures
            r@ == (SpecPoint { x: position@.x + width, y: position@.y }),
    {
        Point { x: position.x + width as i32, y: position.y }
    }

    /// Rasterizes the two dots of a colon anchored at `position`.
    fn rasterize_colon(&self, position: Point) -> (r: Vec<FillOp<C>>)
        requires
            style_ok(self@),
            digit_anchor_ok(position@),
        ensures
            ops_view(r) == colon_ops(position@, self@),
    {
        let mut ops: Vec<FillOp<C>> = Vec::new();
        proof {
            assert(ops_view(ops) =~= Seq::<SpecOp<C>>::empty());
        }
        if let Some(color) = self.segment_color {
            let dy = self.digit_size.height / 3;
            let half = self.segment_width / 2;
            let dot_y = position.y + dy as i32 - half as i32;
            let square = Size { width: self.segment_width, height: self.segment_width };
            ops.push(
                FillOp {
                    rect: Rectangle { top_left: Point { x: position.x, y: dot_y }, size: square },
                    color,
                },
            );
            ops.push(
                FillOp {
                    rect: Rectangle {
                        top_left: Point { x: position.x, y: dot_y + dy as i32 },
                        size: square,
                    },
                    color,
                },
            );
            proof {
                assert(ops_view(ops) =~= colon_ops(position@, self@));
            }
        }
        ops
    }

    /// Rasterizes the single dot of a decimal point anchored at
    /// `position`, flush with the cell bottom.
    fn rasterize_dot(&self, position: Point) -> (r: Vec<FillOp<C>>)
        requires
            style_ok(self@),
            digit_anchor_ok(position@),
        ensures
            ops_view(r) == dot_ops(position@, self@),
    {
        let mut ops: Vec<FillOp<C>> = Vec::new();
        proof {
            assert(ops_view(ops) =~= Seq::<SpecOp<C>>::empty());
        }
        if let Some(color) = self.segment_color {
            let dot_y = position.y + self.digit_size.height as i32 - self.segment_width as i32;
            ops.push(
                FillOp {
                    rect: Rectangle {
                        top_left: Point { x: position.x, y: dot_y },
                        size: Size { width: self.segment_width, height: self.segment_width },
                    },
                    color,
                },
            );
            proof {
                assert(ops_view(ops) =~= dot_ops(position@, self@));
            }
        }
        ops
    }

    /// Lays a text out left to right from `position` and returns the
    /// fill commands that paint it, together with the position where a
    /// following draw continues seamlessly.
    ///
    /// Characters with a glyph become digit cells; `:` and `.` become
    /// small dot shapes a stroke wide; an unsupported character draws
    /// nothing but still advances one digit cell.  The commands appear
    /// in text order, and within one character in segment order.
    pub fn draw_string(&self, text: &str, position: Point, baseline: Baseline) -> (r: (
        Vec<FillOp<C>>,
        Point,
    ))
        requires
            style_ok(self@),
            position_ok(position@),
            position@.x + advance_width(text@, self@) <= POSITION_LIMIT,
        ensures
            ops_view(r.0) == draw_string_ops(text@, position@, baseline, self@),
            r.1@ == draw_string_next(text@, position@, self@),
    {
        let ghost s = self@;
        let offset = self.baseline_offset(baseline);
        let mut cur = Point { x: position.x, y: position.y - offset as i32 };
        let ghost start = cur@;
        let mut ops: Vec<FillOp<C>> = Vec::new();
        let len = text.unicode_len();
        let mut i: usize = 0;
        proof {
            lemma_advance_width_nonneg(text@, s);
            assert(text@.take(0) =~= Seq::<char>::empty());
            assert(text@.skip(0) =~= text@);
            assert(ops_view(ops) =~= Seq::<SpecOp<C>>::empty());
        }
        while i < len
            invariant
                style_ok(s),
                s == self@,
                len == text@.len(),
                i <= len,
                position_ok(position@),
                position@.x + advance_width(text@, s) <= POSITION_LIMIT,
                start == (SpecPoint {
                    x: position@.x,
                    y: position@.y - baseline_offset_of(s.h, baseline),
                }),
                advance_width(text@.take(i as int), s) + advance_width(text@.skip(i as int), s)
                    == advance_width(text@, s),
                advance_width(text@.take(i as int), s) >= 0,
                advance_width(text@.skip(i as int), s) >= 0,
                cur@ == (SpecPoint {
                    x: start.x + advance_width(text@.take(i as int), s),
                    y: start.y,
                }),
                ops_view(ops) == string_body_ops(text@.take(i as int), start, s),
            decreases len - i,
        {
            let c = text.get_char(i);
            proof {
                lemma_advance_split(text@, i as int, s);
                lemma_advance_width_nonneg(text@.skip(i as int + 1), s);
            }
            let ghost cur0 = cur@;
            match Segments::try_from_char(c) {
                Ok(segments) => {
                    assert(c != ':' && c != '.');
                    let digit = Digit::new(segments, cur);
                    let (v, next) = digit.rasterize(self);
                    assert(ops_view(v) == char_ops(c, cur0, s));
                    append_ops(&mut ops, v);
                    cur = next;
                },
                Err(_) => {
                    if c == ':' {
                        let v = self.rasterize_colon(cur);
                        append_ops(&mut ops, v);
                        cur = Point {
                            x: cur.x + self.segment_width as i32 + self.digit_spacing as i32,
                            y: cur.y,
                        };
                    } else if c == '.' {
                        let v = self.rasterize_dot(cur);
                        append_ops(&mut ops, v);
                        cur = Point {
                            x: cur.x + self.segment_width as i32 + self.digit_spacing as i32,
                            y: cur.y,
                        };
                    } else {
                        proof {
                            assert(ops_view(ops) + char_ops(c, cur0, s) =~= ops_view(ops));
                        }
                        cur = Point {
                            x: cur.x + self.digit_size.width as i32 + self.digit_spacing as i32,
                            y: cur.y,
                        };
                    }
                },
            }
            proof {
                lemma_string_body_concat(text@.take(i as int), seq![text@[i as int]], start, s);
                assert(text@.take(i as int) + seq![text@[i as int]] =~= text@.take(i as int + 1));
                assert(seq![text@[i as int]].skip(1) =~= Seq::<char>::empty());
                assert(char_ops(c, cur0, s) + Seq::<SpecOp<C>>::empty() =~= char_ops(c, cur0, s));
                assert(seq![c].len() == 1 && seq![c][0] == c);
                let pos1 = SpecPoint { x: cur0.x + char_advance(c, s), y: cur0.y };
                assert(string_body_ops(Seq::<char>::empty(), pos1, s) == Seq::<SpecOp<C>>::empty());
                assert(string_body_ops(seq![c], cur0, s) == char_ops(c, cur0, s)
                    + string_body_ops(seq![c].skip(1), pos1, s));
                assert(string_body_ops(seq![text@[i as int]], cur0, s) == char_ops(c, cur0, s));
            }
            i = i + 1;
        }
        proof {
            assert(text@.take(len as int) =~= text@);
        }
        let next = Point { x: cur.x, y: cur.y + offset as i32 };
        (ops, next)
    }

    /// Measures a text without drawing it: the bounding box that
    /// [`draw_string`](Self::draw_string) would cover from the same
    /// position and baseline, and the position where a following text
    /// would continue seamlessly.
    pub fn measure_string(&self, text: &str, position: Point, baseline: Baseline) -> (r:
        TextMetrics)
        requires
            style_ok(self@),
            position_ok(position@),
            position@.x + advance_width(text@, self@) <= POSITION_LIMIT,
        ensures
            r.bounding_box@ == (SpecRect {
                x: position@.x,
                y: position@.y - baseline_offset_of(self@.h, baseline),
                w: measure_width(text@, self@),
                h: self@.h,
            }),
            r.next_position@ == (SpecPoint {
                x: position@.x + measure_width(text@, self@),
                y: position@.y,
            }),
    {
        let len = text.unicode_len();
        let mut acc: u32 = 0;
        let mut i: usize = 0;
        proof {
            lemma_advance_width_nonneg(text@, self@);
            assert(text@.take(0) =~= Seq::<char>::empty());
            assert(text@.skip(0) =~= text@);
        }
        while i < len
            invariant
                style_ok(self@),
                len == text@.len(),
                i <= len,
                acc == advance_width(text@.take(i as int), self@),
                advance_width(text@.take(i as int), self@) + advance_width(
                    text@.skip(i as int),
                    self@,
                ) == advance_width(text@, self@),
                advance_width(text@, self@) <= 2 * POSITION_LIMIT,
            decreases len - i,
        {
            let c = text.get_char(i);
            proof {
                lemma_advance_split(text@, i as int, self@);
                lemma_advance_width_nonneg(text@.skip(i as int + 1), self@);
                lemma_advance_width_nonneg(text@.take(i as int), self@);
            }
            let step = if c == '.' || c == ':' {
                self.segment_width
            } else {
                self.digit_size.width
            };
            acc = acc + step + self.digit_spacing;
            i = i + 1;
        }
        proof {
            assert(text@.take(len as int) =~= text@);
        }
        let width = if acc >= self.digit_spacing {
            acc - self.digit_spacing
        } else {
            0
        };
        proof {
            if text@.len() > 0 {
                lemma_advance_width_nonneg(text@.skip(1), self@);
            }
        }
        let offset = self.baseline_offset(baseline);
        TextMetrics {
            bounding_box: Rectangle {
                top_left: Point { x: position.x, y: position.y - offset as i32 },
                size: Size { width, height: self.digit_size.height },
            },
            next_position: Point { x: position.x + width as i32, y: position.y },
        }
    }
}

/// The fill commands of a colon: two stroke-width squares in the active
/// colour, at one third and two thirds of the cell height, centred on
/// the stroke; nothing when the active colour is absent.
pub open spec fn colon_ops<C>(pos: SpecPoint, s: SpecStyle<C>) -> Seq<SpecOp<C>> {
    match s.on {
        Some(color) => {
            let dy = s.h / 3;
            let top = SpecRect { x: pos.x, y: pos.y + dy - s.sw / 2, w: s.sw, h: s.sw };
            let bottom = SpecRect { x: pos.x, y: pos.y + dy - s.sw / 2 + dy, w: s.sw, h: s.sw };
            seq![SpecOp { rect: top, color }, SpecOp { rect: bottom, color }]
        },
        None => Seq::empty(),
    }
}

/// The fill commands of a decimal point: one stroke-width square in the
/// active colour, flush with the bottom of the digit cell; nothing when
/// the active colour is absent.
pub open spec fn dot_ops<C>(pos: SpecPoint, s: SpecStyle<C>) -> Seq<SpecOp<C>> {
    match s.on {
        Some(color) => {
            let r = SpecRect { x: pos.x, y: pos.y + s.h - s.sw, w: s.sw, h: s.sw };
            seq![SpecOp { rect: r, color }]
        },
        None => Seq::empty(),
    }
}

/// The fill commands of one character: a digit cell for a character
/// with a glyph, the fixed dot shapes for `:` and `.`, and nothing for
/// an unsupported character (which still advances one digit cell).
pub open spec fn char_ops<C>(c: char, pos: SpecPoint, s: SpecStyle<C>) -> Seq<SpecOp<C>> {
    match glyph_bits(c) {
        Some(bits) => digit_ops(bits, pos, s),
        None => if c == ':' {
            colon_ops(pos, s)
        } else if c == '.' {
            dot_ops(pos, s)
        } else {
            Seq::empty()
        },
    }
}

/// The fill commands of a whole text laid out left to right from `pos`:
/// each character's commands at its accumulated advance.
pub open spec fn string_body_ops<C>(text: Seq<char>, pos: SpecPoint, s: SpecStyle<C>) -> Seq<
    SpecOp<C>,
>
    decreases text.len(),
{
    if text.len() == 0 {
        Seq::empty()
    } else {
        char_ops(text[0], pos, s) + string_body_ops(
            text.skip(1),
            SpecPoint { x: pos.x + char_advance(text[0], s), y: pos.y },
            s,
        )
    }
}

/// The fill commands of a text drawn at `pos` with a baseline: the body
/// laid out from the position raised by the baseline offset.
pub open spec fn draw_string_ops<C>(
    text: Seq<char>,
    pos: SpecPoint,
    baseline: Baseline,
    s: SpecStyle<C>,
) -> Seq<SpecOp<C>> {
    string_body_ops(
        text,
        SpecPoint { x: pos.x, y: pos.y - baseline_offset_of(s.h, baseline) },
        s,
    )
}

/// The position a draw of `text` from `pos` returns: the full advance
/// further along the row, at the same baseline-relative height.
pub open spec fn draw_string_next<C>(text: Seq<char>, pos: SpecPoint, s: SpecStyle<C>) -> SpecPoint {
    SpecPoint { x: pos.x + advance_width(text, s), y: pos.y }
}

/// Chaining law: drawing a concatenation in one call paints exactly the
/// commands of drawing the first part and then the second part from the
/// position where the first part ended.
pub proof fn lemma_string_body_concat<C>(t1: Seq<char>, t2: Seq<char>, pos: SpecPoint, s: SpecStyle<C>)
    ensures
        string_body_ops(t1 + t2, pos, s) == string_body_ops(t1, pos, s) + string_body_ops(
            t2,
            SpecPoint { x: pos.x + advance_width(t1, s), y: pos.y },
            s,
        ),
    decreases t1.len(),
{
    if t1.len() == 0 {
        assert(t1 + t2 =~= t2);
        assert(string_body_ops(t1, pos, s) + string_body_ops(t2, pos, s) =~= string_body_ops(
            t2,
            pos,
            s,
        ));
    } else {
        let pos1 = SpecPoint { x: pos.x + char_advance(t1[0], s), y: pos.y };
        lemma_string_body_concat(t1.skip(1), t2, pos1, s);
        assert((t1 + t2).skip(1) =~= t1.skip(1) + t2);
        assert((t1 + t2)[0] == t1[0]);
        assert(char_ops(t1[0], pos, s) + (string_body_ops(t1.skip(1), pos1, s) + string_body_ops(
            t2,
            SpecPoint { x: pos1.x + advance_width(t1.skip(1), s), y: pos.y },
            s,
        )) =~= (char_ops(t1[0], pos, s) + string_body_ops(t1.skip(1), pos1, s)) + string_body_ops(
            t2,
            SpecPoint { x: pos1.x + advance_width(t1.skip(1), s), y: pos.y },
            s,
        ));
    }
}

/// Splitting a text after its first `i` characters splits its advance.
pub proof fn lemma_advance_split<C>(text: Seq<char>, i: int, s: SpecStyle<C>)
    requires
        0 <= i < text.len(),
    ensures
        advance_width(text.take(i + 1), s) == advance_width(text.take(i), s) + char_advance(
            text[i],
            s,
        ),
        advance_width(text.skip(i), s) == char_advance(text[i], s) + advance_width(
            text.skip(i + 1),
            s,
        ),
    decreases i + text.len(),
{
    lemma_advance_concat(text.take(i), seq![text[i]], s);
    assert(text.take(i) + seq![text[i]] =~= text.take(i + 1));
    assert(advance_width(seq![text[i]], s) == char_advance(text[i], s) + advance_width(
        seq![text[i]].skip(1),
        s,
    ));
    assert(seq![text[i]].skip(1) =~= Seq::<char>::empty());
    assert(text.skip(i)[0] == text[i]);
    assert(text.skip(i).skip(1) =~= text.skip(i + 1));
}

/// The advance of a concatenation is the sum of the advances.
pub proof fn lemma_advance_concat<C>(t1: Seq<char>, t2: Seq<char>, s: SpecStyle<C>)
    ensures
        advance_width(t1 + t2, s) == advance_width(t1, s) + advance_width(t2, s),
    decreases t1.len(),
{
    if t1.len() == 0 {
        assert(t1 + t2 =~= t2);
    } else {
        lemma_advance_concat(t1.skip(1), t2, s);
        assert((t1 + t2).skip(1) =~= t1.skip(1) + t2);
        assert((t1 + t2)[0] == t1[0]);
    }
}

} // verus!
