//! Points, sizes and rectangles on a grid of whole pixels. A length has
//! sixteen bits and a coordinate thirty-two, so that a coordinate can count
//! every length, to either side. Arithmetic on them stops at the ends of
//! their ranges instead of wrapping.
use vstd::prelude::*;

verus! {

/// The nearest value that a signed pixel coordinate can hold.
pub open spec fn saturate_i32(v: int) -> i32 {
    if v < i32::MIN {
        i32::MIN
    } else if v > i32::MAX {
        i32::MAX
    } else {
        v as i32
    }
}

/// The nearest value that an unsigned pixel length can hold.
pub open spec fn saturate_u16(v: int) -> u16 {
    if v < 0 {
        0
    } else if v > u16::MAX {
        u16::MAX
    } else {
        v as u16
    }
}

/// Brings a wider number into the range of a pixel coordinate.
pub fn to_coordinate(v: i64) -> (c: i32)
    ensures
        c == saturate_i32(v as int),
{
    if v < -2147483648 {
        -2147483648
    } else if v > 2147483647 {
        2147483647
    } else {
        v as i32
    }
}

/// Brings a wider number into the range of a pixel length.
pub fn to_length(v: i64) -> (c: u16)
    ensures
        c == saturate_u16(v as int),
{
    if v < 0 {
        0
    } else if v > 65535 {
        65535
    } else {
        v as u16
    }
}

/// A place on the pixel grid; `y` grows downwards.
#[derive(Clone, Copy, Debug, PartialEq, Eq, Structural)]
pub struct Point {
    pub x: i32,
    pub y: i32,
}

impl Point {
    /// The top-left corner of the grid.
    pub fn origin() -> (p: Point)
        ensures
            p.x == 0,
            p.y == 0,
    {
        Point { x: 0, y: 0 }
    }

    pub fn new(x: i32, y: i32) -> (p: Point)
        ensures
            p.x == x,
            p.y == y,
    {
        Point { x, y }
    }
}

/// The extent of an area, in pixels.
#[derive(Clone, Copy, Debug, PartialEq, Eq, Structural)]
pub struct Size {
    pub width: u16,
    pub height: u16,
}

impl Size {
    pub fn new(width: u16, height: u16) -> (s: Size)
        ensures
            s.width == width,
            s.height == height,
    {
        Size { width, height }
    }
}

/// An upright rectangle, given by its top-left corner and its extent.
#[derive(Clone, Copy, Debug, PartialEq, Eq, Structural)]
pub struct Rectangle {
    pub x: i32,
    pub y: i32,
    pub width: u16,
    pub height: u16,
}

impl Rectangle {
    pub fn new(top_left: Point, size: Size) -> (r: Rectangle)
        ensures
            r.x == top_left.x,
            r.y == top_left.y,
            r.width == size.width,
            r.height == size.height,
    {
        Rectangle { x: top_left.x, y: top_left.y, width: size.width, height: size.height }
    }

    pub fn position(&self) -> (p: Point)
        ensures
            p.x == self.x,
            p.y == self.y,
    {
        Point { x: self.x, y: self.y }
    }

    pub fn size(&self) -> (s: Size)
        ensures
            s.width == self.width,
            s.height == self.height,
    {
        Size { width: self.width, height: self.height }
    }

    /// Whether `point` lies in the rectangle, its four edges included.
    pub open spec fn holds(&self, point: Point) -> bool {
        &&& self.x <= point.x <= self.x + self.width
        &&& self.y <= point.y <= self.y + self.height
    }

    pub fn contains(&self, point: Point) -> (inside: bool)
        ensures
            inside == self.holds(point),
    {
        let px: i64 = point.x as i64;
        let py: i64 = point.y as i64;
        let left: i64 = self.x as i64;
        let top: i64 = self.y as i64;
        left <= px && px <= left + self.width as i64 && top <= py && py <= top + self.height as i64
    }
}

/// Where the pointer is, if the host knows.
#[derive(Clone, Copy, Debug, PartialEq, Eq, Structural)]
pub enum Cursor {
    Available(Point),
    Unavailable,
}

impl Cursor {
    /// The pointer's place counted from the top-left corner of `bounds`, if
    /// the pointer is inside `bounds`.
    pub open spec fn place_in(&self, bounds: Rectangle) -> Option<Point> {
        match *self {
            Cursor::Available(position) => if bounds.holds(position) {
                Some(
                    Point {
                        x: saturate_i32(position.x - bounds.x),
                        y: saturate_i32(position.y - bounds.y),
                    },
                )
            } else {
                None
            },
            Cursor::Unavailable => None,
        }
    }

    pub fn position_in(&self, bounds: &Rectangle) -> (relative: Option<Point>)
        ensures
            relative == self.place_in(*bounds),
    {
        match *self {
            Cursor::Available(position) => {
                if bounds.contains(position) {
                    let x = to_coordinate(position.x as i64 - bounds.x as i64);
                    let y = to_coordinate(position.y as i64 - bounds.y as i64);
                    Some(Point { x, y })
                } else {
                    None
                }
            },
            Cursor::Unavailable => None,
        }
    }
}

} // verus!
