//! Screen geometry and colors shared by the window manager.
use vstd::prelude::*;

verus! {

/// An axis-aligned rectangle in screen pixels.
#[derive(Debug, Clone, Copy, PartialEq, Eq, Structural)]
pub struct Rect {
    pub x: u32,
    pub y: u32,
    pub width: u32,
    pub height: u32,
}

/// Whether the point `(px, py)` lies in the rectangle (left and top edges
/// included, right and bottom edges excluded).
pub open spec fn rect_contains(r: Rect, px: int, py: int) -> bool {
    r.x <= px < r.x + r.width && r.y <= py < r.y + r.height
}

impl Rect {
    /// A rectangle from its position and size.
    pub fn new(x: u32, y: u32, width: u32, height: u32) -> (r: Rect)
        ensures
            r == (Rect { x, y, width, height }),
    {
        Rect { x, y, width, height }
    }

    /// Whether the point `(px, py)` lies in the rectangle.
    pub fn contains(&self, px: u32, py: u32) -> (b: bool)
        ensures
            b == rect_contains(*self, px as int, py as int),
    {
        let right: u64 = self.x as u64 + self.width as u64;
        let bottom: u64 = self.y as u64 + self.height as u64;
        px >= self.x && (px as u64) < right && py >= self.y && (py as u64) < bottom
    }
}

/// A color with alpha.
#[derive(Debug, Clone, Copy, PartialEq, Eq, Structural)]
pub struct Color {
    pub r: u8,
    pub g: u8,
    pub b: u8,
    pub a: u8,
}

/// The packed ARGB value of a color: alpha in the top byte, then red, green, blue.
pub open spec fn argb_of(c: Color) -> u32 {
    (c.a * 0x100_0000 + c.r * 0x1_0000 + c.g * 0x100 + c.b) as u32
}

impl Color {
    /// An opaque color from its red, green and blue parts.
    pub fn from_rgb(r: u8, g: u8, b: u8) -> (c: Color)
        ensures
            c == (Color { r, g, b, a: 255 }),
    {
        Color { r, g, b, a: 255 }
    }

    /// A color from its packed ARGB value.
    pub fn from_argb(v: u32) -> (c: Color)
        ensures
            argb_of(c) == v,
    {
        let a = (v / 0x100_0000) as u8;
        let r = ((v / 0x1_0000) % 0x100) as u8;
        let g = ((v / 0x100) % 0x100) as u8;
        let b = (v % 0x100) as u8;
        Color { r, g, b, a }
    }

    /// The packed ARGB value.
    pub fn to_argb(&self) -> (v: u32)
        ensures
            v == argb_of(*self),
    {
        (self.a as u32) * 0x100_0000 + (self.r as u32) * 0x1_0000 + (self.g as u32) * 0x100
            + self.b as u32
    }

    /// Opaque white.
    pub fn white() -> (c: Color)
        ensures
            c == (Color { r: 255, g: 255, b: 255, a: 255 }),
    {
        Color { r: 255, g: 255, b: 255, a: 255 }
    }

    /// Opaque green.
    pub fn green() -> (c: Color)
        ensures
            c == (Color { r: 0, g: 255, b: 0, a: 255 }),
    {
        Color { r: 0, g: 255, b: 0, a: 255 }
    }

    /// Darkest background of the desktop theme.
    pub fn ui_bg_dark() -> (c: Color)
        ensures
            c == (Color { r: 18, g: 18, b: 24, a: 255 }),
    {
        Color { r: 18, g: 18, b: 24, a: 255 }
    }

    /// Background of window contents.
    pub fn ui_bg_medium() -> (c: Color)
        ensures
            c == (Color { r: 40, g: 40, b: 48, a: 255 }),
    {
        Color { r: 40, g: 40, b: 48, a: 255 }
    }

    /// Accent color of focused decorations.
    pub fn ui_accent() -> (c: Color)
        ensures
            c == (Color { r: 0, g: 122, b: 204, a: 255 }),
    {
        Color { r: 0, g: 122, b: 204, a: 255 }
    }

    /// Border color of unfocused windows.
    pub fn ui_border() -> (c: Color)
        ensures
            c == (Color { r: 70, g: 70, b: 80, a: 255 }),
    {
        Color { r: 70, g: 70, b: 80, a: 255 }
    }
}

} // verus!
