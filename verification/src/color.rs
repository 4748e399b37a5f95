//! Colours with eight bits per channel.

use vstd::prelude::*;

verus! {

/// An RGBA colour; `a` is the opacity, 255 being fully opaque.
#[derive(Clone, Copy, Debug, PartialEq, Eq, Structural)]
pub struct Color {
    pub r: u8,
    pub g: u8,
    pub b: u8,
    pub a: u8,
}

impl Color {
    /// An opaque colour.
    pub fn rgb(r: u8, g: u8, b: u8) -> (c: Color)
        ensures
            c == (Color { r, g, b, a: 255 }),
    {
        Color { r, g, b, a: 255 }
    }

    /// A colour with the given opacity.
    pub fn rgba(r: u8, g: u8, b: u8, a: u8) -> (c: Color)
        ensures
            c == (Color { r, g, b, a }),
    {
        Color { r, g, b, a }
    }

    /// The same colour with another red channel.
    pub fn r(self, r: u8) -> (c: Color)
        ensures
            c == (Color { r, ..self }),
    {
        Color { r, g: self.g, b: self.b, a: self.a }
    }

    /// The same colour with another green channel.
    pub fn g(self, g: u8) -> (c: Color)
        ensures
            c == (Color { g, ..self }),
    {
        Color { r: self.r, g, b: self.b, a: self.a }
    }

    /// The same colour with another blue channel.
    pub fn b(self, b: u8) -> (c: Color)
        ensures
            c == (Color { b, ..self }),
    {
        Color { r: self.r, g: self.g, b, a: self.a }
    }

    /// The same colour with another opacity.
    pub fn a(self, a: u8) -> (c: Color)
        ensures
            c == (Color { a, ..self }),
    {
        Color { r: self.r, g: self.g, b: self.b, a }
    }

    /// Opaque black, the colour of a figure that names none.
    pub open spec fn black() -> Color {
        Color { r: 0, g: 0, b: 0, a: 255 }
    }

    /// Opaque white.
    pub fn white() -> (c: Color)
        ensures
            c == (Color { r: 255, g: 255, b: 255, a: 255 }),
    {
        Color::rgb(255, 255, 255)
    }

    /// Opaque red.
    pub fn red() -> (c: Color)
        ensures
            c == (Color { r: 255, g: 0, b: 0, a: 255 }),
    {
        Color::rgb(255, 0, 0)
    }

    /// Opaque green.
    pub fn green() -> (c: Color)
        ensures
            c == (Color { r: 0, g: 255, b: 0, a: 255 }),
    {
        Color::rgb(0, 255, 0)
    }

    /// Opaque blue.
    pub fn blue() -> (c: Color)
        ensures
            c == (Color { r: 0, g: 0, b: 255, a: 255 }),
    {
        Color::rgb(0, 0, 255)
    }

    /// Opaque yellow.
    pub fn yellow() -> (c: Color)
        ensures
            c == (Color { r: 255, g: 255, b: 0, a: 255 }),
    {
        Color::rgb(255, 255, 0)
    }

    /// Opaque cyan.
    pub fn cyan() -> (c: Color)
        ensures
            c == (Color { r: 0, g: 255, b: 255, a: 255 }),
    {
        Color::rgb(0, 255, 255)
    }

    /// Opaque magenta.
    pub fn magenta() -> (c: Color)
        ensures
            c == (Color { r: 255, g: 0, b: 255, a: 255 }),
    {
        Color::rgb(255, 0, 255)
    }

    /// Opaque orange.
    pub fn orange() -> (c: Color)
        ensures
            c == (Color { r: 255, g: 165, b: 0, a: 255 }),
    {
        Color::rgb(255, 165, 0)
    }
}

impl Default for Color {
    /// The colour with every channel at zero: transparent black.
    fn default() -> (c: Color)
        ensures
            c == (Color { r: 0, g: 0, b: 0, a: 0 }),
    {
        Color { r: 0, g: 0, b: 0, a: 0 }
    }
}

} // verus!
