use vstd::prelude::*;

use crate::size::{sub_floor, Size};

verus! {

/// An absolute position on the character grid.
#[derive(Clone, Copy, Debug, PartialEq, Eq, Structural)]
pub struct Point {
    pub x: usize,
    pub y: usize,
}

/// A displacement on the character grid.
#[derive(Clone, Copy, Debug, PartialEq, Eq, Structural)]
pub struct Vec2 {
    pub x: usize,
    pub y: usize,
}

/// An axis-aligned rectangle spanning `[x0, x1) x [y0, y1)`.
#[derive(Clone, Copy, Debug, PartialEq, Eq, Structural)]
pub struct Rect {
    pub x0: usize,
    pub y0: usize,
    pub x1: usize,
    pub y1: usize,
}

/// How far one rectangle reaches beyond another on each side.
#[derive(Clone, Copy, Debug, PartialEq, Eq, Structural)]
pub struct Insets {
    pub x0: usize,
    pub y0: usize,
    pub x1: usize,
    pub y1: usize,
}

pub open spec fn min_int(a: int, b: int) -> int {
    if a <= b {
        a
    } else {
        b
    }
}

pub open spec fn max_int(a: int, b: int) -> int {
    if a >= b {
        a
    } else {
        b
    }
}

impl Point {
    pub fn new(x: usize, y: usize) -> (r: Point)
        ensures
            r.x == x,
            r.y == y,
    {
        Point { x, y }
    }
}

impl From<(usize, usize)> for Point {
    /// The point `(x, y)`.
    fn from(p: (usize, usize)) -> (r: Point) {
        Point { x: p.0, y: p.1 }
    }
}

impl vstd::std_specs::convert::FromSpecImpl<(usize, usize)> for Point {
    open spec fn obeys_from_spec() -> bool {
        true
    }

    open spec fn from_spec(p: (usize, usize)) -> Point {
        Point { x: p.0, y: p.1 }
    }
}

impl Vec2 {
    pub fn new(x: usize, y: usize) -> (r: Vec2)
        ensures
            r.x == x,
            r.y == y,
    {
        Vec2 { x, y }
    }
}

impl Rect {
    /// The rectangle with both corners at the origin.
    pub fn zero() -> (r: Rect)
        ensures
            r == (Rect { x0: 0, y0: 0, x1: 0, y1: 0 }),
    {
        Rect { x0: 0, y0: 0, x1: 0, y1: 0 }
    }

    /// This rectangle moved or resized so that it keeps its origin and has the given size;
    /// a far edge that would pass `usize::MAX` stops there.
    pub fn with_size(&self, size: Size) -> (r: Rect)
        ensures
            r.x0 == self.x0,
            r.y0 == self.y0,
            r.x1 == min_int(self.x0 + size.width, usize::MAX as int),
            r.y1 == min_int(self.y0 + size.height, usize::MAX as int),
    {
        Rect {
            x0: self.x0,
            y0: self.y0,
            x1: self.x0.saturating_add(size.width),
            y1: self.y0.saturating_add(size.height),
        }
    }

    /// The extent of a well-formed rectangle (`x0 <= x1`, `y0 <= y1`).
    pub fn size(&self) -> (r: Size)
        requires
            self.x0 <= self.x1,
            self.y0 <= self.y1,
        ensures
            r.width == self.x1 - self.x0,
            r.height == self.y1 - self.y0,
    {
        Size { width: self.x1 - self.x0, height: self.y1 - self.y0 }
    }

    /// The smallest rectangle that holds both rectangles.
    pub fn union(&self, other: Rect) -> (r: Rect)
        ensures
            r.x0 == min_int(self.x0 as int, other.x0 as int),
            r.y0 == min_int(self.y0 as int, other.y0 as int),
            r.x1 == max_int(self.x1 as int, other.x1 as int),
            r.y1 == max_int(self.y1 as int, other.y1 as int),
    {
        Rect {
            x0: if self.x0 <= other.x0 { self.x0 } else { other.x0 },
            y0: if self.y0 <= other.y0 { self.y0 } else { other.y0 },
            x1: if self.x1 >= other.x1 { self.x1 } else { other.x1 },
            y1: if self.y1 >= other.y1 { self.y1 } else { other.y1 },
        }
    }

    /// How far this rectangle reaches beyond `other` on each side (zero on a side where it
    /// stays within): the insets between a child's painted area and its own bounds.
    pub fn sub(&self, other: Rect) -> (r: Insets)
        ensures
            r.x0 == sub_floor(other.x0 as int, self.x0 as int),
            r.y0 == sub_floor(other.y0 as int, self.y0 as int),
            r.x1 == sub_floor(self.x1 as int, other.x1 as int),
            r.y1 == sub_floor(self.y1 as int, other.y1 as int),
    {
        Insets {
            x0: other.x0.saturating_sub(self.x0),
            y0: other.y0.saturating_sub(self.y0),
            x1: self.x1.saturating_sub(other.x1),
            y1: self.y1.saturating_sub(other.y1),
        }
    }
}

} // verus!
