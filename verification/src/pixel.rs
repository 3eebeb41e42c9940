//! A 32-bit ARGB pixel and the integer blending rules applied to it.

use vstd::prelude::*;

verus! {

/// One pixel, stored as `0xAARRGGBB`.
#[derive(Debug, Clone, Copy, PartialEq, Eq, Structural)]
pub struct Pixel {
    color: u32,
}

/// The alpha channel of a packed colour.
pub open spec fn alpha_of(color: u32) -> int {
    (color as int / 0x100_0000) % 0x100
}

/// The red channel of a packed colour.
pub open spec fn red_of(color: u32) -> int {
    (color as int / 0x1_0000) % 0x100
}

/// The green channel of a packed colour.
pub open spec fn green_of(color: u32) -> int {
    (color as int / 0x100) % 0x100
}

/// The blue channel of a packed colour.
pub open spec fn blue_of(color: u32) -> int {
    color as int % 0x100
}

/// The packed colour made of four channels, each below 256.
pub open spec fn pack(a: int, r: int, g: int, b: int) -> int {
    a * 0x100_0000 + r * 0x1_0000 + g * 0x100 + b
}

/// Linear mix of two channel values: `f` parts of `a` and `255 - f` parts of
/// `b`, out of 255, rounded down.
pub open spec fn mixed(a: int, b: int, f: int) -> int {
    (a * f + b * (255 - f)) / 255
}

/// Sum of two alpha values, capped at 255.
pub open spec fn alpha_sum(a: int, b: int) -> int {
    if a + b > 255 {
        255
    } else {
        a + b
    }
}

/// The colour that results from laying `n` over `o`.
pub open spec fn blended(n: u32, o: u32) -> int {
    pack(
        alpha_sum(alpha_of(n), alpha_of(o)),
        mixed(red_of(n), red_of(o), alpha_of(n)),
        mixed(green_of(n), green_of(o), alpha_of(n)),
        mixed(blue_of(n), blue_of(o), alpha_of(n)),
    )
}

/// A mix of two bytes is again a byte.
pub proof fn lemma_mixed_is_byte(a: int, b: int, f: int)
    requires
        0 <= a <= 255,
        0 <= b <= 255,
        0 <= f <= 255,
    ensures
        0 <= a * f + b * (255 - f) <= 255 * 255,
        0 <= mixed(a, b, f) <= 255,
{
    assert(0 <= a * f <= 255 * f) by (nonlinear_arith)
        requires
            0 <= a <= 255,
            0 <= f,
    ;
    assert(0 <= b * (255 - f) <= 255 * (255 - f)) by (nonlinear_arith)
        requires
            0 <= b <= 255,
            0 <= 255 - f,
    ;
}

/// With full weight the mix is its first argument, with none its second.
pub proof fn lemma_mixed_extremes(a: int, b: int)
    requires
        0 <= a <= 255,
        0 <= b <= 255,
    ensures
        mixed(a, b, 255) == a,
        mixed(a, b, 0) == b,
{
    assert(a * 255 + b * (255 - 255) == a * 255) by (nonlinear_arith);
    assert(a * 0 + b * (255 - 0) == b * 255) by (nonlinear_arith);
}

/// Mixing white over black gives back the weight.
pub proof fn lemma_mixed_white_over_black(f: int)
    requires
        0 <= f <= 255,
    ensures
        mixed(255, 0, f) == f,
{
    assert(255 * f + 0 * (255 - f) == f * 255) by (nonlinear_arith);
}

impl Pixel {
    /// The packed colour of this pixel.
    pub closed spec fn view(&self) -> u32 {
        self.color
    }

    pub fn from_u32(color: u32) -> (p: Pixel)
        ensures
            p@ == color,
    {
        Pixel { color }
    }

    pub fn to_u32(&self) -> (color: u32)
        ensures
            color == self@,
    {
        self.color
    }

    /// Mixes `a` over `b` with weight `f` out of 255.
    pub fn mix_byte(a: u8, b: u8, f: u8) -> (m: u8)
        ensures
            m as int == mixed(a as int, b as int, f as int),
    {
        proof {
            lemma_mixed_is_byte(a as int, b as int, f as int);
        }
        let a: u32 = a as u32;
        let b: u32 = b as u32;
        let f: u32 = f as u32;
        let a: u32 = a * f;
        let b: u32 = b * (255 - f);
        let ab: u32 = (a + b) / 255;
        ab as u8
    }

    /// Lays `n` over `o`: the colour channels are mixed by the alpha of `n`,
    /// the two alphas are added and capped.
    pub fn blend_with_alpha(n: &Pixel, o: &Pixel) -> (p: Pixel)
        ensures
            p@ as int == blended(n@, o@),
    {
        let a: u32 = n.color;
        let b: u32 = o.color;

        let aa: u8 = ((a >> 24) & 0x0000_00ff) as u8;
        let ra: u8 = ((a >> 16) & 0x0000_00ff) as u8;
        let ga: u8 = ((a >> 8) & 0x0000_00ff) as u8;
        let ba: u8 = (a & 0x0000_00ff) as u8;

        let ab: u8 = ((b >> 24) & 0x0000_00ff) as u8;
        let rb: u8 = ((b >> 16) & 0x0000_00ff) as u8;
        let gb: u8 = ((b >> 8) & 0x0000_00ff) as u8;
        let bb: u8 = (b & 0x0000_00ff) as u8;

        proof {
            lemma_channels(a);
            lemma_channels(b);
        }

        let sa: u32 = aa.saturating_add(ab) as u32;
        let r: u32 = Pixel::mix_byte(ra, rb, aa) as u32;
        let g: u32 = Pixel::mix_byte(ga, gb, aa) as u32;
        let b: u32 = Pixel::mix_byte(ba, bb, aa) as u32;

        proof {
            lemma_pack(sa, r, g, b);
        }
        let argb: u32 = (sa << 24) | (r << 16) | (g << 8) | b;

        Pixel { color: argb }
    }
}

impl From<u32> for Pixel {
    fn from(color: u32) -> (p: Pixel)
        ensures
            p@ == color,
    {
        Pixel { color }
    }
}

impl vstd::std_specs::convert::FromSpecImpl<u32> for Pixel {
    open spec fn obeys_from_spec() -> bool {
        true
    }

    closed spec fn from_spec(color: u32) -> Pixel {
        Pixel { color }
    }
}

impl From<Pixel> for u32 {
    fn from(p: Pixel) -> (color: u32) {
        p.color
    }
}

impl vstd::std_specs::convert::FromSpecImpl<Pixel> for u32 {
    open spec fn obeys_from_spec() -> bool {
        true
    }

    open spec fn from_spec(p: Pixel) -> u32 {
        p@
    }
}

/// Shifting and masking read the same channels as dividing and reducing.
proof fn lemma_channels(c: u32)
    ensures
        ((c >> 24) & 0xff) as int == alpha_of(c),
        ((c >> 16) & 0xff) as int == red_of(c),
        ((c >> 8) & 0xff) as int == green_of(c),
        (c & 0xff) as int == blue_of(c),
{
    assert((c >> 24) & 0xff == (c / 0x100_0000) % 0x100) by (bit_vector);
    assert((c >> 16) & 0xff == (c / 0x1_0000) % 0x100) by (bit_vector);
    assert((c >> 8) & 0xff == (c / 0x100) % 0x100) by (bit_vector);
    assert(c & 0xff == c % 0x100) by (bit_vector);
}

/// Four bytes shifted into place and joined are their weighted sum.
proof fn lemma_pack(a: u32, r: u32, g: u32, b: u32)
    requires
        a <= 255,
        r <= 255,
        g <= 255,
        b <= 255,
    ensures
        ((a << 24) | (r << 16) | (g << 8) | b) as int == pack(a as int, r as int, g as int, b as int),
{
    assert(((a << 24) | (r << 16) | (g << 8) | b) == a * 0x100_0000 + r * 0x1_0000 + g * 0x100 + b)
        by (bit_vector)
        requires
            a <= 255,
            r <= 255,
            g <= 255,
            b <= 255,
    ;
}

} // verus!
