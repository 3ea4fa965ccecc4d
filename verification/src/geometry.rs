//! Points, sizes, lines, rectangles and colours of the display.

use vstd::prelude::*;

verus! {

/// A point of the display, in pixels; `y` grows downwards.
#[derive(Debug, Clone, Copy, PartialEq, Eq, Structural)]
pub struct Point {
    pub x: i32,
    pub y: i32,
}

/// A size in pixels.
#[derive(Debug, Clone, Copy, PartialEq, Eq, Structural)]
pub struct Size {
    pub width: u32,
    pub height: u32,
}

/// A straight line between two points.
#[derive(Debug, Clone, Copy, PartialEq, Eq, Structural)]
pub struct Line {
    pub start: Point,
    pub end: Point,
}

/// An axis-aligned rectangle given by two opposite corners.
#[derive(Debug, Clone, Copy, PartialEq, Eq, Structural)]
pub struct Rectangle {
    pub top_left: Point,
    pub bottom_right: Point,
}

/// A colour in 16 bits: 5 bits of red, 6 of green, 5 of blue.
#[derive(Debug, Clone, Copy, PartialEq, Eq, Structural)]
pub struct Rgb565 {
    pub r: u8,
    pub g: u8,
    pub b: u8,
}

pub open spec fn in_i32(x: int) -> bool {
    i32::MIN <= x <= i32::MAX
}

pub open spec fn pt(x: int, y: int) -> Point {
    Point { x: x as i32, y: y as i32 }
}

/// Whether `p + by` stays within the range of the coordinates.
pub open spec fn can_add(p: Point, by: Point) -> bool {
    in_i32(p.x + by.x) && in_i32(p.y + by.y)
}

pub open spec fn spec_add(p: Point, by: Point) -> Point {
    pt(p.x + by.x, p.y + by.y)
}

impl Point {
    pub fn new(x: i32, y: i32) -> (r: Point)
        ensures
            r.x == x,
            r.y == y,
    {
        Point { x, y }
    }

    /// The point moved by `by`.
    pub fn add(self, by: Point) -> (r: Point)
        requires
            can_add(self, by),
        ensures
            r == spec_add(self, by),
    {
        Point { x: self.x + by.x, y: self.y + by.y }
    }
}

impl Size {
    pub fn new(width: u32, height: u32) -> (r: Size)
        ensures
            r.width == width,
            r.height == height,
    {
        Size { width, height }
    }
}

impl Rgb565 {
    pub open spec fn spec_new(r: u8, g: u8, b: u8) -> Rgb565 {
        Rgb565 { r, g, b }
    }

    pub fn black() -> (c: Rgb565)
        ensures
            c == Rgb565::spec_new(0, 0, 0),
    {
        Rgb565 { r: 0, g: 0, b: 0 }
    }

    pub fn white() -> (c: Rgb565)
        ensures
            c == Rgb565::spec_new(31, 63, 31),
    {
        Rgb565 { r: 31, g: 63, b: 31 }
    }

    pub fn red() -> (c: Rgb565)
        ensures
            c == Rgb565::spec_new(31, 0, 0),
    {
        Rgb565 { r: 31, g: 0, b: 0 }
    }

    pub fn green() -> (c: Rgb565)
        ensures
            c == Rgb565::spec_new(0, 63, 0),
    {
        Rgb565 { r: 0, g: 63, b: 0 }
    }
}

/// Moving by `by` and then by its opposite gives the point back.
pub proof fn lemma_add_then_subtract(p: Point, by: Point)
    requires
        can_add(p, by),
        in_i32(-by.x),
        in_i32(-by.y),
    ensures
        can_add(spec_add(p, by), pt(-by.x, -by.y)),
        spec_add(spec_add(p, by), pt(-by.x, -by.y)) == p,
{
}

} // verus!
