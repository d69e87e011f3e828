//! 32-bit BGRA pixel values and the conversions the wire protocol needs:
//! 24-bit RGB, 8-bit grayscale and 32-bit RGBA forms, plus the packed
//! `u32` encodings used by the canvas and the `PX` reply.

use vstd::prelude::*;

verus! {

/// One pixel, stored in memory byte order B, G, R, A.
#[derive(Debug, Clone, Copy, PartialEq, Eq, Structural)]
pub struct Bgra {
    pub b: u8,
    pub g: u8,
    pub r: u8,
    pub a: u8,
}

impl Bgra {
    /// The packed big-endian encoding 0xBBGGRRAA of this pixel.
    pub open spec fn spec_to_u32(self) -> u32 {
        ((self.b as int) * 0x1000000 + (self.g as int) * 0x10000 + (self.r as int) * 0x100
            + (self.a as int)) as u32
    }

    /// The pixel denoted by a packed 0xBBGGRRAA word.
    pub open spec fn spec_from_u32(value: u32) -> Bgra {
        Bgra {
            b: (value / 0x1000000) as u8,
            g: ((value / 0x10000) % 0x100) as u8,
            r: ((value / 0x100) % 0x100) as u8,
            a: (value % 0x100) as u8,
        }
    }

    /// The packed big-endian wire encoding 0xRRGGBBAA of this pixel.
    pub open spec fn spec_to_rgba(self) -> u32 {
        ((self.r as int) * 0x1000000 + (self.g as int) * 0x10000 + (self.b as int) * 0x100
            + (self.a as int)) as u32
    }

    /// The packed 0x00RRGGBB word of this pixel's color channels.
    pub open spec fn spec_rgb(self) -> u32 {
        ((self.r as int) * 0x10000 + (self.g as int) * 0x100 + (self.b as int)) as u32
    }

    /// The fully opaque pixel denoted by a packed 0x00RRGGBB word.
    pub open spec fn spec_from_rgb(rgb: u32) -> Bgra {
        Bgra {
            r: ((rgb / 0x10000) % 0x100) as u8,
            g: ((rgb / 0x100) % 0x100) as u8,
            b: (rgb % 0x100) as u8,
            a: 255u8,
        }
    }

    /// The pixel denoted by a packed 0xRRGGBBAA word.
    pub open spec fn spec_from_rgba(value: u32) -> Bgra {
        Bgra {
            r: (value / 0x1000000) as u8,
            g: ((value / 0x10000) % 0x100) as u8,
            b: ((value / 0x100) % 0x100) as u8,
            a: (value % 0x100) as u8,
        }
    }

    /// The pixel denoted by a packed 0xAARRGGBB word.
    pub open spec fn spec_from_argb(value: u32) -> Bgra {
        Bgra {
            a: (value / 0x1000000) as u8,
            r: ((value / 0x10000) % 0x100) as u8,
            g: ((value / 0x100) % 0x100) as u8,
            b: (value % 0x100) as u8,
        }
    }

    /// The fully opaque gray pixel of brightness `bw`.
    pub open spec fn spec_from_bw(bw: u8) -> Bgra {
        Bgra { r: bw, g: bw, b: bw, a: 255u8 }
    }

    /// Decode a packed 0xBBGGRRAA word.
    pub fn from_u32(value: u32) -> (r: Bgra)
        ensures
            r == Bgra::spec_from_u32(value),
    {
        Bgra {
            b: (value / 0x1000000) as u8,
            g: ((value / 0x10000) % 0x100) as u8,
            r: ((value / 0x100) % 0x100) as u8,
            a: (value % 0x100) as u8,
        }
    }

    /// Encode as a packed 0xRRGGBBAA word, the order the wire uses.
    pub fn to_rgba(self) -> (r: u32)
        ensures
            r == self.spec_to_rgba(),
    {
        (self.r as u32) * 0x1000000 + (self.g as u32) * 0x10000 + (self.b as u32) * 0x100
            + (self.a as u32)
    }

    /// Encode as a packed 0xBBGGRRAA word.
    pub fn to_u32(self) -> (r: u32)
        ensures
            r == self.spec_to_u32(),
    {
        (self.b as u32) * 0x1000000 + (self.g as u32) * 0x10000 + (self.r as u32) * 0x100
            + (self.a as u32)
    }

    /// Decode a packed 0xRRGGBBAA word.
    pub fn from_rgba(value: u32) -> (res: Bgra)
        ensures
            res == Bgra::spec_from_rgba(value),
            res.r == value / 0x1000000,
            res.g == (value / 0x10000) % 0x100,
            res.b == (value / 0x100) % 0x100,
            res.a == value % 0x100,
    {
        Bgra {
            r: (value / 0x1000000) as u8,
            g: ((value / 0x10000) % 0x100) as u8,
            b: ((value / 0x100) % 0x100) as u8,
            a: (value % 0x100) as u8,
        }
    }

    /// Decode a packed 0xAARRGGBB word.
    pub fn from_argb(value: u32) -> (res: Bgra)
        ensures
            res == Bgra::spec_from_argb(value),
            res.a == value / 0x1000000,
            res.r == (value / 0x10000) % 0x100,
            res.g == (value / 0x100) % 0x100,
            res.b == value % 0x100,
    {
        Bgra {
            a: (value / 0x1000000) as u8,
            r: ((value / 0x10000) % 0x100) as u8,
            g: ((value / 0x100) % 0x100) as u8,
            b: (value % 0x100) as u8,
        }
    }

    /// A fully opaque gray pixel.
    pub fn from_bw(bw: u8) -> (res: Bgra)
        ensures
            res == Bgra::spec_from_bw(bw),
    {
        Bgra { r: bw, g: bw, b: bw, a: 255 }
    }

    /// Decode a packed 0x00RRGGBB word as a fully opaque pixel.
    pub fn from_rgb(rgb: u32) -> (res: Bgra)
        ensures
            res == Bgra::spec_from_rgb(rgb),
            res.r == (rgb / 0x10000) % 0x100,
            res.g == (rgb / 0x100) % 0x100,
            res.b == rgb % 0x100,
            res.a == 255,
    {
        Bgra {
            r: ((rgb / 0x10000) % 0x100) as u8,
            g: ((rgb / 0x100) % 0x100) as u8,
            b: (rgb % 0x100) as u8,
            a: 0xff,
        }
    }

    /// Encode the color channels as a packed 0x00RRGGBB word.
    pub fn rgb(&self) -> (res: u32)
        ensures
            res == self.spec_rgb(),
    {
        (self.r as u32) * 0x10000 + (self.g as u32) * 0x100 + (self.b as u32)
    }
}

impl Default for Bgra {
    /// The all-zero (transparent black) pixel.
    fn default() -> (res: Bgra)
        ensures
            res == (Bgra { b: 0u8, g: 0u8, r: 0u8, a: 0u8 }),
    {
        Bgra { b: 0, g: 0, r: 0, a: 0 }
    }
}

/// Packing a pixel and unpacking the word gives the pixel back.
#[verifier::rlimit(50)]
pub proof fn lemma_bgra_u32_round_trip(p: Bgra)
    ensures
        Bgra::spec_from_u32(p.spec_to_u32()) == p,
{
    let v = p.spec_to_u32();
    assert(v == (p.b as int) * 0x1000000 + (p.g as int) * 0x10000 + (p.r as int) * 0x100 + (
    p.a as int));
    assert(v / 0x1000000 == p.b as int && (v / 0x10000) % 0x100 == p.g as int && (v / 0x100)
        % 0x100 == p.r as int && v % 0x100 == p.a as int) by (nonlinear_arith)
        requires
            v == (p.b as int) * 0x1000000 + (p.g as int) * 0x10000 + (p.r as int) * 0x100 + (
            p.a as int),
            p.b < 256,
            p.g < 256,
            p.r < 256,
            p.a < 256,
    ;
}

} // verus!
