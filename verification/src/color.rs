//! Colours of three 8-bit channels, and their packed form.
//!
//! Shading sums are formed by the caller in single precision, unclamped.  A
//! colour of this module is what such a sum becomes when it is written to the
//! framebuffer, and what materials, textures and the sky are given as.

use vstd::prelude::*;
use crate::scalar::Scalar;

verus! {

#[derive(Clone, Copy, Debug, PartialEq, Eq, Structural)]
pub struct Color {
    pub r: u8,
    pub g: u8,
    pub b: u8,
}

impl Color {
    /// The colour as one number: red in bits 16 to 23, green in bits 8 to 15,
    /// blue in bits 0 to 7.
    pub open spec fn hex(self) -> int {
        self.r * 0x1_0000 + self.g * 0x100 + self.b
    }

    /// The colour that a packed number stands for; bits above the 24th are
    /// not read.
    pub open spec fn unpacked(hex: u32) -> Color {
        Color {
            r: ((hex as int / 0x1_0000) % 0x100) as u8,
            g: ((hex as int / 0x100) % 0x100) as u8,
            b: (hex as int % 0x100) as u8,
        }
    }

    pub fn new(r: u8, g: u8, b: u8) -> (c: Color)
        ensures
            c == (Color { r, g, b }),
    {
        Color { r, g, b }
    }

    pub fn black() -> (c: Color)
        ensures
            c == (Color { r: 0, g: 0, b: 0 }),
    {
        Color { r: 0, g: 0, b: 0 }
    }

    pub fn white() -> (c: Color)
        ensures
            c == (Color { r: 255, g: 255, b: 255 }),
    {
        Color { r: 255, g: 255, b: 255 }
    }

    /// The colour that a shading sum is written as: each channel's whole
    /// part, held to 0..=255.  This is the only place where a sum is clamped.
    pub fn from_radiance(red: Scalar, green: Scalar, blue: Scalar) -> (c: Color)
        ensures
            c.r == red.channel(),
            c.g == green.channel(),
            c.b == blue.channel(),
    {
        Color { r: red.to_channel(), g: green.to_channel(), b: blue.to_channel() }
    }

    pub fn red(&self) -> (v: u8)
        ensures
            v == self.r,
    {
        self.r
    }

    pub fn green(&self) -> (v: u8)
        ensures
            v == self.g,
    {
        self.g
    }

    pub fn blue(&self) -> (v: u8)
        ensures
            v == self.b,
    {
        self.b
    }

    /// Packs the colour for the framebuffer.
    pub fn to_hex(&self) -> (hex: u32)
        ensures
            hex == self.hex(),
            hex < 0x100_0000,
            Color::unpacked(hex) == *self,
    {
        let r: u32 = self.r as u32;
        let g: u32 = self.g as u32;
        let b: u32 = self.b as u32;
        let hex: u32 = (r << 16) | (g << 8) | b;
        assert(hex == r * 0x1_0000 + g * 0x100 + b) by (bit_vector)
            requires
                hex == (r << 16) | (g << 8) | b,
                r < 0x100,
                g < 0x100,
                b < 0x100,
        ;
        hex
    }

    /// Reads a packed colour.
    pub fn from_hex(hex: u32) -> (c: Color)
        ensures
            c == Color::unpacked(hex),
            hex < 0x100_0000 ==> c.hex() == hex,
    {
        let r: u32 = (hex >> 16) & 0xff;
        let g: u32 = (hex >> 8) & 0xff;
        let b: u32 = hex & 0xff;
        assert(r == (hex / 0x1_0000) % 0x100 && g == (hex / 0x100) % 0x100 && b == hex % 0x100) by (bit_vector)
            requires
                r == (hex >> 16) & 0xff,
                g == (hex >> 8) & 0xff,
                b == hex & 0xff,
        ;
        Color { r: r as u8, g: g as u8, b: b as u8 }
    }
}

} // verus!
