//! Four-channel colours and their packed 32-bit form.

use vstd::prelude::*;

verus! {

/// A colour with alpha, red, green and blue channels of eight bits each.
#[derive(Debug, Clone, Copy, PartialEq, Eq, Structural)]
pub struct Color {
    pub a: u8,
    pub r: u8,
    pub g: u8,
    pub b: u8,
}

/// The packed form of four channels: alpha in the most significant byte,
/// then red, then green, and blue in the least significant byte.
pub open spec fn pack_channels(a: u8, r: u8, g: u8, b: u8) -> u32 {
    ((a as u32) << 24) | ((r as u32) << 16) | ((g as u32) << 8) | (b as u32)
}

impl Color {
    /// The packed form of this colour, `(a << 24) | (r << 16) | (g << 8) | b`.
    pub open spec fn packed(self) -> u32 {
        pack_channels(self.a, self.r, self.g, self.b)
    }

    /// The colour whose packed form is `packed`: each channel is one byte of it.
    pub open spec fn unpacked(packed: u32) -> Color {
        Color {
            a: (packed >> 24) as u8,
            r: ((packed >> 16) & 0xff) as u8,
            g: ((packed >> 8) & 0xff) as u8,
            b: (packed & 0xff) as u8,
        }
    }

    /// A fully opaque colour. The channels are given in the order red, green,
    /// blue; alpha is fixed at 255.
    pub fn new(r: u8, g: u8, b: u8) -> (color: Color)
        ensures
            color == (Color { a: 255, r, g, b }),
    {
        Color { a: 255, r, g, b }
    }

    /// Packs the four channels into one 32-bit integer, `A:R:G:B` from the most
    /// to the least significant byte.
    pub fn as_u32(&self) -> (packed: u32)
        ensures
            packed == self.packed(),
    {
        ((self.a as u32) << 24) | ((self.r as u32) << 16) | ((self.g as u32) << 8) | (self.b as u32)
    }

    /// Splits a packed 32-bit integer into its four channels.
    pub fn from_u32(packed: u32) -> (color: Color)
        ensures
            color == Color::unpacked(packed),
            color.packed() == packed,
    {
        proof {
            lemma_pack_unpack(packed);
        }
        Color {
            a: (packed >> 24) as u8,
            r: ((packed >> 16) & 0xff) as u8,
            g: ((packed >> 8) & 0xff) as u8,
            b: (packed & 0xff) as u8,
        }
    }
}

/// Packing is arithmetic in base 256: the packed form is
/// `a * 256^3 + r * 256^2 + g * 256 + b`.
pub proof fn lemma_packed_value(c: Color)
    ensures
        c.packed() == c.a * 0x100_0000 + c.r * 0x1_0000 + c.g * 0x100 + c.b,
{
    let (a, r, g, b) = (c.a, c.r, c.g, c.b);
    assert(pack_channels(a, r, g, b) == a * 0x100_0000 + r * 0x1_0000 + g * 0x100 + b)
        by (bit_vector);
}

/// Unpacking undoes packing: every colour is recovered from its packed form.
pub proof fn lemma_unpack_pack(c: Color)
    ensures
        Color::unpacked(c.packed()) == c,
{
    let (a, r, g, b) = (c.a, c.r, c.g, c.b);
    let p = pack_channels(a, r, g, b);
    assert((p >> 24) as u8 == a && ((p >> 16) & 0xff) as u8 == r && ((p >> 8) & 0xff) as u8 == g
        && (p & 0xff) as u8 == b) by (bit_vector)
        requires
            p == pack_channels(a, r, g, b),
    ;
}

/// Packing undoes unpacking: every 32-bit integer is the packed form of the
/// colour it unpacks to.
pub proof fn lemma_pack_unpack(packed: u32)
    ensures
        Color::unpacked(packed).packed() == packed,
{
    let a = (packed >> 24) as u8;
    let r = ((packed >> 16) & 0xff) as u8;
    let g = ((packed >> 8) & 0xff) as u8;
    let b = (packed & 0xff) as u8;
    assert(pack_channels(a, r, g, b) == packed) by (bit_vector)
        requires
            a == (packed >> 24) as u8,
            r == ((packed >> 16) & 0xff) as u8,
            g == ((packed >> 8) & 0xff) as u8,
            b == (packed & 0xff) as u8,
    ;
}

/// Two colours with the same packed form are the same colour.
pub proof fn lemma_packed_injective(c: Color, d: Color)
    requires
        c.packed() == d.packed(),
    ensures
        c == d,
{
    lemma_unpack_pack(c);
    lemma_unpack_pack(d);
}

} // verus!
