//! Points, sizes, rectangles and colors, in whole viewport pixels.
//!
//! Coordinates are integers: a rectangle's width and height are unsigned, so
//! every rectangle is well formed by construction.

use vstd::prelude::*;

verus! {

/// A point in viewport coordinates: pixels, origin at the top left.
#[derive(Clone, Copy, Debug, PartialEq, Eq, Structural)]
pub struct Point {
    pub x: i32,
    pub y: i32,
}

/// A viewport size in pixels.
#[derive(Clone, Copy, Debug, PartialEq, Eq, Structural)]
pub struct Size {
    pub width: u32,
    pub height: u32,
}

/// A computed rectangle: position of the top-left corner plus extent.
#[derive(Clone, Copy, Debug, PartialEq, Eq, Structural)]
pub struct Layout {
    pub left: i32,
    pub top: i32,
    pub width: u32,
    pub height: u32,
}

/// An RGBA color with 8-bit channels.
#[derive(Clone, Copy, Debug, PartialEq, Eq, Structural)]
pub struct Color {
    pub r: u8,
    pub g: u8,
    pub b: u8,
    pub a: u8,
}

/// Relies on rand::random: draws one byte from the thread's generator.
/// Nothing is promised of the value; callers must accept every outcome.
#[verifier::external_body]
fn random_byte() -> u8 {
    rand::random::<u8>()
}

/// A random opaque color: the channels are drawn freshly on every call, the
/// alpha is always full. Meant for debug painting, where any fill will do.
pub fn random_color() -> (c: Color)
    ensures
        c.a == 255,
{
    Color { r: random_byte(), g: random_byte(), b: random_byte(), a: 255 }
}

impl Layout {
    /// Whether `p` lies inside the rectangle; the left and top edges are
    /// inclusive, the right and bottom edges exclusive.
    pub open spec fn spec_contains(self, p: Point) -> bool {
        &&& self.left <= p.x < self.left + self.width
        &&& self.top <= p.y < self.top + self.height
    }

    pub fn contains(&self, p: Point) -> (r: bool)
        ensures
            r == self.spec_contains(p),
    {
        let left = self.left as i64;
        let top = self.top as i64;
        let x = p.x as i64;
        let y = p.y as i64;
        left <= x && x < left + self.width as i64 && top <= y && y < top + self.height as i64
    }
}

} // verus!
