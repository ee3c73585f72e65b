//! The laws of the library: properties that relate several functions,
//! stated over the same models that those functions' contracts use, and
//! proved once and for all.

use vstd::prelude::*;

use crate::digit::{
    seg_rect_a, seg_rect_b, seg_rect_c, seg_rect_d, seg_rect_e, seg_rect_f, seg_rect_g,
};
use crate::geometry::{rect_contains, rects_disjoint, SpecPoint, SpecRect};
use crate::segment::{h_scanline, reduced_rect, segment_ops, v_scanline, SpecOp};
use crate::segments::{glyph_bits, BAND_BASE};
use crate::style::{
    baseline_offset_of, char_advance, draw_string_next, draw_string_ops, lemma_advance_concat,
    lemma_advance_width_nonneg, lemma_string_body_concat, measure_width, style_ok, Baseline,
    SpecStyle,
};

verus! {

/// Round-trip law, decoding direction: any character in the private-use
/// band decodes to the flag set `code point - BAND_BASE`, so the
/// character that encodes a flag set decodes back to exactly that flag
/// set.
pub proof fn lemma_decode_encode_roundtrip(c: char, b: u8)
    requires
        b < 0x80,
        c as u32 == BAND_BASE + b,
    ensures
        glyph_bits(c) == Some(b),
{
}

/// Round-trip law, encoding direction: any character in the private-use
/// band decodes to a flag set whose encoding has the character's own
/// code point, so encoding after decoding reproduces the character.
pub proof fn lemma_encode_decode_roundtrip(c: char)
    requires
        BAND_BASE <= c as u32,
        (c as u32) < BAND_BASE + 0x80,
    ensures
        glyph_bits(c) matches Some(b) && BAND_BASE + b == c as u32,
{
}

/// The curated glyph domain: every character the table maps to a flag
/// set (the private-use band aside).
pub open spec fn curated_domain(c: char) -> bool {
    ||| c == ' '
    ||| ('0' <= c && c <= '9')
    ||| c == 'a' || c == 'A' || c == 'b' || c == 'B' || c == 'c' || c == 'C'
    ||| c == 'd' || c == 'D' || c == 'e' || c == 'E' || c == 'f' || c == 'F'
    ||| c == 'g' || c == 'G' || c == 'h' || c == 'H' || c == 'i' || c == 'I'
    ||| c == 'j' || c == 'J' || c == 'l' || c == 'L' || c == 'n' || c == 'N'
    ||| c == 'o' || c == 'O' || c == 'p' || c == 'P' || c == 'q' || c == 'Q'
    ||| c == 'r' || c == 'R' || c == 's' || c == 'S' || c == 't' || c == 'T'
    ||| c == 'u' || c == 'U' || c == 'y' || c == 'Y'
    ||| c == '_' || c == '-' || c == '=' || c == '\u{00B0}' || c == '"' || c == '\''
    ||| c == '(' || c == '[' || c == ')' || c == ']' || c == '?'
}

/// Table totality law: every character of the curated domain decodes
/// without error.
pub proof fn lemma_table_total(c: char)
    requires
        curated_domain(c),
    ensures
        glyph_bits(c) is Some,
{
}

/// Chaining law: drawing a concatenated text in one call paints exactly
/// the commands of drawing the first part and then drawing the second
/// part from the returned position, with either call's baseline
/// handling agreeing because the returned position sits on the original
/// baseline.
pub proof fn lemma_draw_string_chaining<C>(
    t1: Seq<char>,
    t2: Seq<char>,
    pos: SpecPoint,
    baseline: Baseline,
    s: SpecStyle<C>,
)
    ensures
        draw_string_ops(t1 + t2, pos, baseline, s) == draw_string_ops(t1, pos, baseline, s)
            + draw_string_ops(t2, draw_string_next(t1, pos, s), baseline, s),
        draw_string_next(t1 + t2, pos, s) == draw_string_next(
            t2,
            draw_string_next(t1, pos, s),
            s,
        ),
{
    let adjusted = SpecPoint { x: pos.x, y: pos.y - baseline_offset_of(s.h, baseline) };
    lemma_string_body_concat(t1, t2, adjusted, s);
    lemma_advance_concat(t1, t2, s);
}

/// Baseline invariance law: drawing with the bottom baseline at a
/// position one cell height less one below `y` paints exactly the
/// pixels of drawing with the top baseline at `y`.
pub proof fn lemma_baseline_invariance<C>(text: Seq<char>, x: int, y: int, s: SpecStyle<C>)
    requires
        s.h >= 1,
    ensures
        draw_string_ops(text, SpecPoint { x, y: y + (s.h - 1) }, Baseline::Bottom, s)
            == draw_string_ops(text, SpecPoint { x, y }, Baseline::Top, s),
{
}

/// A character the renderer draws something or advances a dot cell for.
pub open spec fn char_supported(c: char) -> bool {
    glyph_bits(c) is Some || c == ':' || c == '.'
}

/// Advance monotonicity law: a non-empty, fully supported text with a
/// positive digit width and stroke width strictly advances the cursor.
pub proof fn lemma_advance_monotone<C>(text: Seq<char>, pos: SpecPoint, s: SpecStyle<C>)
    requires
        style_ok(s),
        s.w >= 1,
        s.sw >= 1,
        text.len() > 0,
        forall|i: int| 0 <= i < text.len() ==> char_supported(#[trigger] text[i]),
    ensures
        draw_string_next(text, pos, s).x > pos.x,
{
    lemma_advance_width_nonneg(text.skip(1), s);
    assert(char_advance(text[0], s) >= 1);
}

/// Whether any command of a sequence fills the pixel `(px, py)`.
pub open spec fn ops_cover<C>(ops: Seq<SpecOp<C>>, px: int, py: int) -> bool {
    exists|k: int| 0 <= k < ops.len() && rect_contains(#[trigger] ops[k].rect, px, py)
}

/// The horizontal mirror image of column `px` within rectangle `r`.
pub open spec fn mirror_x(r: SpecRect, px: int) -> int {
    2 * r.x + r.w - 1 - px
}

/// The vertical mirror image of row `py` within rectangle `r`.
pub open spec fn mirror_y(r: SpecRect, py: int) -> int {
    2 * r.y + r.h - 1 - py
}

proof fn lemma_hseg_covers_mirror<C>(r: SpecRect, color: C, px: int, py: int)
    requires
        r.w > r.h,
        ops_cover(segment_ops(r, color), px, py),
    ensures
        ops_cover(segment_ops(r, color), mirror_x(r, px), py),
{
    let ops = segment_ops(r, color);
    let k = choose|k: int| 0 <= k < ops.len() && rect_contains(#[trigger] ops[k].rect, px, py);
    assert(ops[k].rect == h_scanline(r, k));
    assert(rect_contains(ops[k].rect, mirror_x(r, px), py));
}

/// Symmetry law, horizontal bars: the pixels of a rasterized horizontal
/// segment are symmetric about the vertical centreline of its
/// rectangle.
pub proof fn lemma_horizontal_segment_symmetric<C>(r: SpecRect, color: C, px: int, py: int)
    requires
        r.w > r.h,
    ensures
        ops_cover(segment_ops(r, color), px, py) <==> ops_cover(
            segment_ops(r, color),
            mirror_x(r, px),
            py,
        ),
{
    if ops_cover(segment_ops(r, color), px, py) {
        lemma_hseg_covers_mirror(r, color, px, py);
    }
    if ops_cover(segment_ops(r, color), mirror_x(r, px), py) {
        lemma_hseg_covers_mirror(r, color, mirror_x(r, px), py);
        assert(mirror_x(r, mirror_x(r, px)) == px);
    }
}

proof fn lemma_vseg_covers_mirror<C>(r: SpecRect, color: C, px: int, py: int)
    requires
        r.w <= r.h,
        ops_cover(segment_ops(r, color), px, py),
    ensures
        ops_cover(segment_ops(r, color), px, mirror_y(r, py)),
{
    let ops = segment_ops(r, color);
    let k = choose|k: int| 0 <= k < ops.len() && rect_contains(#[trigger] ops[k].rect, px, py);
    assert(ops[k].rect == v_scanline(r, k));
    assert(rect_contains(ops[k].rect, px, mirror_y(r, py)));
}

/// Symmetry law, vertical bars: the pixels of a rasterized vertical
/// segment are symmetric about the horizontal centreline of its
/// rectangle.
pub proof fn lemma_vertical_segment_symmetric<C>(r: SpecRect, color: C, px: int, py: int)
    requires
        r.w <= r.h,
    ensures
        ops_cover(segment_ops(r, color), px, py) <==> ops_cover(
            segment_ops(r, color),
            px,
            mirror_y(r, py),
        ),
{
    if ops_cover(segment_ops(r, color), px, py) {
        lemma_vseg_covers_mirror(r, color, px, py);
    }
    if ops_cover(segment_ops(r, color), px, mirror_y(r, py)) {
        lemma_vseg_covers_mirror(r, color, px, mirror_y(r, py));
        assert(mirror_y(r, mirror_y(r, py)) == py);
    }
}

/// One of the seven segment rectangles of a digit cell, numbered 0 to 6
/// in segment order A to G.
pub open spec fn digit_segment_rect<C>(k: int, p: SpecPoint, s: SpecStyle<C>) -> SpecRect {
    if k == 0 {
        seg_rect_a(p, s)
    } else if k == 1 {
        seg_rect_b(p, s)
    } else if k == 2 {
        seg_rect_c(p, s)
    } else if k == 3 {
        seg_rect_d(p, s)
    } else if k == 4 {
        seg_rect_e(p, s)
    } else if k == 5 {
        seg_rect_f(p, s)
    } else {
        seg_rect_g(p, s)
    }
}

/// Rectangles separated along one axis, or empty, share no pixel.
proof fn lemma_separated_disjoint(a: SpecRect, b: SpecRect)
    requires
        a.x + a.w <= b.x || b.x + b.w <= a.x || a.y + a.h <= b.y || b.y + b.h <= a.y || a.w <= 0
            || a.h <= 0 || b.w <= 0 || b.h <= 0,
    ensures
        rects_disjoint(a, b),
{
    assert forall|px: int, py: int| !(#[trigger] rect_contains(a, px, py) && rect_contains(
        b,
        px,
        py,
    )) by {}
}

/// Non-overlap law: for a stroke width of one or two pixels, a digit
/// cell at least twice as wide and three times as tall as the stroke,
/// the seven segment rectangles, each shrunk by [`reduced_rect`], share
/// no pixel pairwise.  (A thicker stroke narrows only through its
/// taper: the shrunk bounding rectangles themselves then touch at the
/// corners, so the law is stated for the widths where the rectangles
/// separate.)
pub proof fn lemma_digit_segments_disjoint<C>(p: SpecPoint, s: SpecStyle<C>)
    requires
        1 <= s.sw <= 2,
        s.h >= 3 * s.sw,
        s.w >= 2 * s.sw,
    ensures
        forall|i: int, j: int|
            0 <= i < 7 && 0 <= j < 7 && i != j ==> rects_disjoint(
                reduced_rect(#[trigger] digit_segment_rect(i, p, s)),
                reduced_rect(#[trigger] digit_segment_rect(j, p, s)),
            ),
{
    let w = s.w;
    let h = s.h;
    let sw = s.sw;
    let o = sw / 2 + 1;
    let ht = (h + sw) / 2;
    let hb = (h + sw + 1) / 2;
    let g = (h - sw) / 2;

    let ra = reduced_rect(digit_segment_rect(0, p, s));
    let rb = reduced_rect(digit_segment_rect(1, p, s));
    let rc = reduced_rect(digit_segment_rect(2, p, s));
    let rd = reduced_rect(digit_segment_rect(3, p, s));
    let re = reduced_rect(digit_segment_rect(4, p, s));
    let rf = reduced_rect(digit_segment_rect(5, p, s));
    let rg = reduced_rect(digit_segment_rect(6, p, s));

    assert(ht + hb == h + sw);
    assert(ht - g == sw);
    assert(g + hb == h);
    assert(sw <= o && o <= sw + 1);
    assert(g >= sw);
    assert(ht >= 2 * sw && ht >= 2 * o);
    assert(hb >= 2 * o);
    assert(w >= 2 * o);

    assert(ra == (SpecRect { x: p.x + o, y: p.y, w: w - 2 * o, h: sw }));
    assert(rb == (SpecRect { x: p.x + w - sw, y: p.y + o, w: sw, h: ht - 2 * o }));
    assert(rc == (SpecRect { x: p.x + w - sw, y: p.y + h - hb + o, w: sw, h: hb - 2 * o }));
    assert(rd == (SpecRect { x: p.x + o, y: p.y + h - sw, w: w - 2 * o, h: sw }));
    assert(re == (SpecRect { x: p.x, y: p.y + h - hb + o, w: sw, h: hb - 2 * o }));
    assert(rf == (SpecRect { x: p.x, y: p.y + o, w: sw, h: ht - 2 * o }));
    assert(rg == (SpecRect { x: p.x + o, y: p.y + g, w: w - 2 * o, h: sw }));

    // A above everything else; D below; G between, clear of both.
    lemma_separated_disjoint(ra, rb);
    lemma_separated_disjoint(ra, rc);
    lemma_separated_disjoint(ra, rd);
    lemma_separated_disjoint(ra, re);
    lemma_separated_disjoint(ra, rf);
    lemma_separated_disjoint(ra, rg);
    lemma_separated_disjoint(rb, rc);
    lemma_separated_disjoint(rb, rd);
    lemma_separated_disjoint(rb, re);
    lemma_separated_disjoint(rb, rf);
    lemma_separated_disjoint(rb, rg);
    lemma_separated_disjoint(rc, rd);
    lemma_separated_disjoint(rc, re);
    lemma_separated_disjoint(rc, rf);
    lemma_separated_disjoint(rc, rg);
    lemma_separated_disjoint(rd, re);
    lemma_separated_disjoint(rd, rf);
    lemma_separated_disjoint(rd, rg);
    lemma_separated_disjoint(re, rf);
    lemma_separated_disjoint(re, rg);
    lemma_separated_disjoint(rf, rg);

    assert forall|i: int, j: int| 0 <= i < 7 && 0 <= j < 7 && i != j implies rects_disjoint(
        reduced_rect(#[trigger] digit_segment_rect(i, p, s)),
        reduced_rect(#[trigger] digit_segment_rect(j, p, s)),
    ) by {
        lemma_disjoint_symmetric(
            reduced_rect(digit_segment_rect(i, p, s)),
            reduced_rect(digit_segment_rect(j, p, s)),
        );
    }
}

/// Sharing no pixel is symmetric.
proof fn lemma_disjoint_symmetric(a: SpecRect, b: SpecRect)
    requires
        rects_disjoint(a, b) || rects_disjoint(b, a),
    ensures
        rects_disjoint(a, b),
        rects_disjoint(b, a),
{
    if rects_disjoint(a, b) {
        assert forall|px: int, py: int| !(#[trigger] rect_contains(b, px, py) && rect_contains(
            a,
            px,
            py,
        )) by {
            assert(!(rect_contains(a, px, py) && rect_contains(b, px, py)));
        }
    } else {
        assert forall|px: int, py: int| !(#[trigger] rect_contains(a, px, py) && rect_contains(
            b,
            px,
            py,
        )) by {
            assert(!(rect_contains(b, px, py) && rect_contains(a, px, py)));
        }
    }
}

/// Measurement determinism law: the measuring contract pins every field
/// of the result, so two measurements of the same text, position,
/// baseline and style agree exactly.
pub proof fn lemma_measure_deterministic<C>(
    box1: SpecRect,
    next1: SpecPoint,
    box2: SpecRect,
    next2: SpecPoint,
    text: Seq<char>,
    pos: SpecPoint,
    baseline: Baseline,
    s: SpecStyle<C>,
)
    requires
        box1 == (SpecRect {
            x: pos.x,
            y: pos.y - baseline_offset_of(s.h, baseline),
            w: measure_width(text, s),
            h: s.h,
        }),
        box2 == (SpecRect {
            x: pos.x,
            y: pos.y - baseline_offset_of(s.h, baseline),
            w: measure_width(text, s),
            h: s.h,
        }),
        next1 == (SpecPoint { x: pos.x + measure_width(text, s), y: pos.y }),
        next2 == (SpecPoint { x: pos.x + measure_width(text, s), y: pos.y }),
    ensures
        box1 == box2,
        next1 == next2,
{
}

} // verus!
