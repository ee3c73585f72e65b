//! The glyph model: which of the seven segments a character lights.
//!
//! Segment layout:
//!
//! ```text
//!  AAAAA
//! F     B
//! F     B
//!  GGGGG
//! E     C
//! E     C
//!  DDDDD
//! ```
//!
//! A [`Segments`] value is a set of the seven flags, stored as a 7-bit
//! mask.  A curated table maps digits, many letters and a little
//! punctuation to their flag sets, and a 128-entry private-use code-point
//! band (`U+E000..=U+E07F`) embeds raw flag sets in ordinary text, so
//! that any flag combination round-trips through a single character.

use vstd::prelude::*;

verus! {

/// Bit of segment A (top).
pub const SEG_A: u8 = 0x40;

/// Bit of segment B (upper right).
pub const SEG_B: u8 = 0x20;

/// Bit of segment C (lower right).
pub const SEG_C: u8 = 0x10;

/// Bit of segment D (bottom).
pub const SEG_D: u8 = 0x08;

/// Bit of segment E (lower left).
pub const SEG_E: u8 = 0x04;

/// Bit of segment F (upper left).
pub const SEG_F: u8 = 0x02;

/// Bit of segment G (middle).
pub const SEG_G: u8 = 0x01;

/// First code point of the private-use band that embeds raw flag sets.
pub const BAND_BASE: u32 = 0xE000;

/// The character has no glyph: it is outside the curated table and
/// outside the private-use band.
#[derive(Clone, Copy, Debug, PartialEq, Eq, Structural)]
pub struct UnsupportedCharacter;

/// The flag set lit by a character, or `None` when the character has no
/// glyph.
///
/// The curated table is a design artifact (a font): it is the single
/// source of truth for how each digit, letter and punctuation mark is
/// composed from segments.  Characters in the private-use band decode to
/// the raw flag set `code point - BAND_BASE`.
pub open spec fn glyph_bits(c: char) -> Option<u8> {
    if c == ' ' {
        Some(0u8)
    } else if c == '0' {
        Some((SEG_A + SEG_B + SEG_C + SEG_D + SEG_E + SEG_F) as u8)
    } else if c == '1' {
        Some((SEG_B + SEG_C) as u8)
    } else if c == '2' {
        Some((SEG_A + SEG_B + SEG_D + SEG_E + SEG_G) as u8)
    } else if c == '3' {
        Some((SEG_A + SEG_B + SEG_C + SEG_D + SEG_G) as u8)
    } else if c == '4' {
        Some((SEG_B + SEG_C + SEG_F + SEG_G) as u8)
    } else if c == '5' {
        Some((SEG_A + SEG_C + SEG_D + SEG_F + SEG_G) as u8)
    } else if c == '6' {
        Some((SEG_A + SEG_C + SEG_D + SEG_E + SEG_F + SEG_G) as u8)
    } else if c == '7' {
        Some((SEG_A + SEG_B + SEG_C) as u8)
    } else if c == '8' {
        Some((SEG_A + SEG_B + SEG_C + SEG_D + SEG_E + SEG_F + SEG_G) as u8)
    } else if c == '9' {
        Some((SEG_A + SEG_B + SEG_C + SEG_D + SEG_F + SEG_G) as u8)
    } else if c == 'a' || c == 'A' {
        Some((SEG_A + SEG_B + SEG_C + SEG_E + SEG_F + SEG_G) as u8)
    } else if c == 'b' || c == 'B' {
        Some((SEG_C + SEG_D + SEG_E + SEG_F + SEG_G) as u8)
    } else if c == 'c' {
        Some((SEG_D + SEG_E + SEG_G) as u8)
    } else if c == 'C' {
        Some((SEG_A + SEG_D + SEG_E + SEG_F) as u8)
    } else if c == 'd' || c == 'D' {
        Some((SEG_B + SEG_C + SEG_D + SEG_E + SEG_G) as u8)
    } else if c == 'e' || c == 'E' {
        Some((SEG_A + SEG_D + SEG_E + SEG_F + SEG_G) as u8)
    } else if c == 'f' || c == 'F' {
        Some((SEG_A + SEG_E + SEG_F + SEG_G) as u8)
    } else if c == 'g' || c == 'G' {
        Some((SEG_A + SEG_C + SEG_D + SEG_E + SEG_F) as u8)
    } else if c == 'h' {
        Some((SEG_C + SEG_E + SEG_F + SEG_G) as u8)
    } else if c == 'H' {
        Some((SEG_B + SEG_C + SEG_E + SEG_F + SEG_G) as u8)
    } else if c == 'i' || c == 'I' {
        Some((SEG_E + SEG_F) as u8)
    } else if c == 'j' || c == 'J' {
        Some((SEG_B + SEG_C + SEG_D + SEG_E) as u8)
    } else if c == 'l' || c == 'L' {
        Some((SEG_D + SEG_E + SEG_F) as u8)
    } else if c == 'n' || c == 'N' {
        Some((SEG_C + SEG_E + SEG_G) as u8)
    } else if c == 'o' {
        Some((SEG_C + SEG_D + SEG_E + SEG_G) as u8)
    } else if c == 'O' {
        Some((SEG_A + SEG_B + SEG_C + SEG_D + SEG_E + SEG_F) as u8)
    } else if c == 'p' || c == 'P' {
        Some((SEG_A + SEG_B + SEG_E + SEG_F + SEG_G) as u8)
    } else if c == 'q' || c == 'Q' {
        Some((SEG_A + SEG_B + SEG_C + SEG_F + SEG_G) as u8)
    } else if c == 'r' || c == 'R' {
        Some((SEG_E + SEG_G) as u8)
    } else if c == 's' || c == 'S' {
        Some((SEG_A + SEG_C + SEG_D + SEG_F + SEG_G) as u8)
    } else if c == 't' || c == 'T' {
        Some((SEG_D + SEG_E + SEG_F + SEG_G) as u8)
    } else if c == 'u' {
        Some((SEG_C + SEG_D + SEG_E) as u8)
    } else if c == 'U' {
        Some((SEG_B + SEG_C + SEG_D + SEG_E + SEG_F) as u8)
    } else if c == 'y' || c == 'Y' {
        Some((SEG_B + SEG_C + SEG_D + SEG_F + SEG_G) as u8)
    } else if c == '_' {
        Some(SEG_D)
    } else if c == '-' {
        Some(SEG_G)
    } else if c == '=' {
        Some((SEG_D + SEG_G) as u8)
    } else if c == '\u{00B0}' {
        Some((SEG_A + SEG_B + SEG_F + SEG_G) as u8)
    } else if c == '"' {
        Some((SEG_B + SEG_F) as u8)
    } else if c == '\'' {
        Some(SEG_F)
    } else if c == '(' || c == '[' {
        Some((SEG_A + SEG_D + SEG_E + SEG_F) as u8)
    } else if c == ')' || c == ']' {
        Some((SEG_A + SEG_B + SEG_C + SEG_D) as u8)
    } else if c == '?' {
        Some((SEG_A + SEG_B + SEG_E + SEG_G) as u8)
    } else if BAND_BASE <= c as u32 && (c as u32) < BAND_BASE + 0x80 {
        Some((c as u32 - BAND_BASE) as u8)
    } else {
        None
    }
}

/// Whether two masks `a` and `b` satisfy "all flags of `b` are in `a`".
pub open spec fn mask_contains(a: u8, b: u8) -> bool {
    a & b == b
}

/// A set of lit segments, stored as a 7-bit mask.
///
/// Values are immutable; combination builds new values.  Every value
/// holds only the seven meaningful bits, so every value can be embedded
/// in text through [`Segments::to_char`].
#[derive(Clone, Copy, Debug, PartialEq, Eq, Structural)]
pub struct Segments {
    bits: u8,
}

impl View for Segments {
    type V = u8;

    closed spec fn view(&self) -> u8 {
        self.bits
    }
}

impl Segments {
    /// Only the seven segment bits are ever set.
    #[verifier::type_invariant]
    closed spec fn wf(self) -> bool {
        self.bits < 0x80
    }

    /// The empty flag set: no segment lit.
    pub fn empty() -> (r: Segments)
        ensures
            r@ == 0,
    {
        Segments { bits: 0 }
    }

    /// The flag set of segment A alone.
    pub fn a() -> (r: Segments)
        ensures
            r@ == SEG_A,
    {
        Segments { bits: SEG_A }
    }

    /// The flag set of segment B alone.
    pub fn b() -> (r: Segments)
        ensures
            r@ == SEG_B,
    {
        Segments { bits: SEG_B }
    }

    /// The flag set of segment C alone.
    pub fn c() -> (r: Segments)
        ensures
            r@ == SEG_C,
    {
        Segments { bits: SEG_C }
    }

    /// The flag set of segment D alone.
    pub fn d() -> (r: Segments)
        ensures
            r@ == SEG_D,
    {
        Segments { bits: SEG_D }
    }

    /// The flag set of segment E alone.
    pub fn e() -> (r: Segments)
        ensures
            r@ == SEG_E,
    {
        Segments { bits: SEG_E }
    }

    /// The flag set of segment F alone.
    pub fn f() -> (r: Segments)
        ensures
            r@ == SEG_F,
    {
        Segments { bits: SEG_F }
    }

    /// The flag set of segment G alone.
    pub fn g() -> (r: Segments)
        ensures
            r@ == SEG_G,
    {
        Segments { bits: SEG_G }
    }

    /// The raw 7-bit mask.
    pub fn bits(&self) -> (r: u8)
        ensures
            r == self@,
    {
        self.bits
    }

    /// Builds a flag set from a raw mask; `None` when a bit outside the
    /// seven segment bits is set.
    pub fn from_bits(bits: u8) -> (r: Option<Segments>)
        ensures
            bits < 0x80 ==> (r matches Some(s) && s@ == bits),
            bits >= 0x80 ==> r is None,
    {
        if bits < 0x80 {
            Some(Segments { bits })
        } else {
            None
        }
    }

    /// The union of two flag sets.
    pub fn union(self, other: Segments) -> (r: Segments)
        ensures
            r@ == (self@ | other@),
    {
        proof {
            use_type_invariant(self);
            use_type_invariant(other);
            let a = self.bits;
            let b = other.bits;
            assert((a | b) < 0x80) by (bit_vector)
                requires
                    a < 0x80,
                    b < 0x80,
            ;
        }
        Segments { bits: self.bits | other.bits }
    }

    /// Whether every flag of `other` is lit in `self`.
    pub fn contains(self, other: Segments) -> (r: bool)
        ensures
            r == mask_contains(self@, other@),
    {
        self.bits & other.bits == other.bits
    }

    /// The flag set of a character, per the curated table and the
    /// private-use band; `Err` when the character has no glyph.
    pub fn try_from_char(c: char) -> (r: Result<Segments, UnsupportedCharacter>)
        ensures
            r is Ok <==> glyph_bits(c) is Some,
            r matches Ok(s) ==> glyph_bits(c) == Some(s@),
    {
        let bits: u8 = if c == ' ' {
            0
        } else if c == '0' {
            SEG_A + SEG_B + SEG_C + SEG_D + SEG_E + SEG_F
        } else if c == '1' {
            SEG_B + SEG_C
        } else if c == '2' {
            SEG_A + SEG_B + SEG_D + SEG_E + SEG_G
        } else if c == '3' {
            SEG_A + SEG_B + SEG_C + SEG_D + SEG_G
        } else if c == '4' {
            SEG_B + SEG_C + SEG_F + SEG_G
        } else if c == '5' {
            SEG_A + SEG_C + SEG_D + SEG_F + SEG_G
        } else if c == '6' {
            SEG_A + SEG_C + SEG_D + SEG_E + SEG_F + SEG_G
        } else if c == '7' {
            SEG_A + SEG_B + SEG_C
        } else if c == '8' {
            SEG_A + SEG_B + SEG_C + SEG_D + SEG_E + SEG_F + SEG_G
        } else if c == '9' {
            SEG_A + SEG_B + SEG_C + SEG_D + SEG_F + SEG_G
        } else if c == 'a' || c == 'A' {
            SEG_A + SEG_B + SEG_C + SEG_E + SEG_F + SEG_G
        } else if c == 'b' || c == 'B' {
            SEG_C + SEG_D + SEG_E + SEG_F + SEG_G
        } else if c == 'c' {
            SEG_D + SEG_E + SEG_G
        } else if c == 'C' {
            SEG_A + SEG_D + SEG_E + SEG_F
        } else if c == 'd' || c == 'D' {
            SEG_B + SEG_C + SEG_D + SEG_E + SEG_G
        } else if c == 'e' || c == 'E' {
            SEG_A + SEG_D + SEG_E + SEG_F + SEG_G
        } else if c == 'f' || c == 'F' {
            SEG_A + SEG_E + SEG_F + SEG_G
        } else if c == 'g' || c == 'G' {
            SEG_A + SEG_C + SEG_D + SEG_E + SEG_F
        } else if c == 'h' {
            SEG_C + SEG_E + SEG_F + SEG_G
        } else if c == 'H' {
            SEG_B + SEG_C + SEG_E + SEG_F + SEG_G
        } else if c == 'i' || c == 'I' {
            SEG_E + SEG_F
        } else if c == 'j' || c == 'J' {
            SEG_B + SEG_C + SEG_D + SEG_E
        } else if c == 'l' || c == 'L' {
            SEG_D + SEG_E + SEG_F
        } else if c == 'n' || c == 'N' {
            SEG_C + SEG_E + SEG_G
        } else if c == 'o' {
            SEG_C + SEG_D + SEG_E + SEG_G
        } else if c == 'O' {
            SEG_A + SEG_B + SEG_C + SEG_D + SEG_E + SEG_F
        } else if c == 'p' || c == 'P' {
            SEG_A + SEG_B + SEG_E + SEG_F + SEG_G
        } else if c == 'q' || c == 'Q' {
            SEG_A + SEG_B + SEG_C + SEG_F + SEG_G
        } else if c == 'r' || c == 'R' {
            SEG_E + SEG_G
        } else if c == 's' || c == 'S' {
            SEG_A + SEG_C + SEG_D + SEG_F + SEG_G
        } else if c == 't' || c == 'T' {
            SEG_D + SEG_E + SEG_F + SEG_G
        } else if c == 'u' {
            SEG_C + SEG_D + SEG_E
        } else if c == 'U' {
            SEG_B + SEG_C + SEG_D + SEG_E + SEG_F
        } else if c == 'y' || c == 'Y' {
            SEG_B + SEG_C + SEG_D + SEG_F + SEG_G
        } else if c == '_' {
            SEG_D
        } else if c == '-' {
            SEG_G
        } else if c == '=' {
            SEG_D + SEG_G
        } else if c == '\u{00B0}' {
            SEG_A + SEG_B + SEG_F + SEG_G
        } else if c == '"' {
            SEG_B + SEG_F
        } else if c == '\'' {
            SEG_F
        } else if c == '(' || c == '[' {
            SEG_A + SEG_D + SEG_E + SEG_F
        } else if c == ')' || c == ']' {
            SEG_A + SEG_B + SEG_C + SEG_D
        } else if c == '?' {
            SEG_A + SEG_B + SEG_E + SEG_G
        } else {
            let u = c as u32;
            if BAND_BASE <= u && u < BAND_BASE + 0x80 {
                (u - BAND_BASE) as u8
            } else {
                return Err(UnsupportedCharacter);
            }
        };
        Ok(Segments { bits })
    }

    /// The character in the private-use band that embeds this flag set:
    /// code point `BAND_BASE + bits`.  Decoding that character yields
    /// the flag set back.
    pub fn to_char(self) -> (r: char)
        ensures
            r as u32 == BAND_BASE + self@,
    {
        proof {
            use_type_invariant(self);
        }
        char::from_u32(BAND_BASE + self.bits as u32).unwrap_or(' ')
    }
}

/// Relies on char::from_u32: `Some` exactly for code points that are
/// valid Unicode scalar values (not surrogates, at most U+10FFFF), and
/// the returned character has the given code point.
pub assume_specification[ char::from_u32 ](i: u32) -> (r: Option<char>)
    ensures
        r is Some <==> (i < 0xD800 || (0xE000 <= i && i <= 0x10FFFF)),
        r matches Some(c) ==> c as u32 == i,
;

} // verus!
