use vstd::prelude::*;

use crate::box_constraints::BoxConstraints;
use crate::geometry::{Point, Rect, Vec2};
use crate::size::Size;

verus! {

/// An orientation: the direction along which a container arranges its children.
#[derive(Debug, Clone, Copy, PartialEq, Eq, Structural)]
pub enum Axis {
    /// The x axis.
    Horizontal,
    /// The y axis.
    Vertical,
}

impl Axis {
    pub open spec fn cross_spec(self) -> Axis {
        match self {
            Axis::Horizontal => Axis::Vertical,
            Axis::Vertical => Axis::Horizontal,
        }
    }

    /// The component of `s` along this axis.
    pub open spec fn major_of(self, s: Size) -> usize {
        match self {
            Axis::Horizontal => s.width,
            Axis::Vertical => s.height,
        }
    }

    /// The component of `s` across this axis.
    pub open spec fn minor_of(self, s: Size) -> usize {
        self.cross_spec().major_of(s)
    }

    /// The `(x, y)` pair with `major` along this axis and `minor` across it.
    pub open spec fn pack_spec(self, major: usize, minor: usize) -> (usize, usize) {
        match self {
            Axis::Horizontal => (major, minor),
            Axis::Vertical => (minor, major),
        }
    }

    /// The size with `major` along this axis and `minor` across it.
    pub open spec fn size_of(self, major: usize, minor: usize) -> Size {
        Size { width: self.pack_spec(major, minor).0, height: self.pack_spec(major, minor).1 }
    }

    /// `bc` with its bounds along this axis replaced by `[min_major, max_major]`.
    pub open spec fn with_major(
        self,
        bc: BoxConstraints,
        min_major: usize,
        max_major: usize,
    ) -> BoxConstraints {
        BoxConstraints::from_bounds(
            self.size_of(min_major, self.minor_of(bc.lower())),
            self.size_of(max_major, self.minor_of(bc.upper())),
        )
    }

    /// `r` has the bounds `[min_major, max_major]` along this axis and the bounds of `bc` across it.
    pub open spec fn rewrites_major(
        self,
        bc: BoxConstraints,
        min_major: usize,
        max_major: usize,
        r: BoxConstraints,
    ) -> bool {
        &&& self.major_of(r.lower()) == min_major
        &&& self.major_of(r.upper()) == max_major
        &&& self.minor_of(r.lower()) == self.minor_of(bc.lower())
        &&& self.minor_of(r.upper()) == self.minor_of(bc.upper())
    }

    /// The axis perpendicular to this one.
    pub fn cross(self) -> (r: Axis)
        ensures
            r == self.cross_spec(),
    {
        match self {
            Axis::Horizontal => Axis::Vertical,
            Axis::Vertical => Axis::Horizontal,
        }
    }

    /// The magnitude of `coords` along this axis.
    pub fn major(self, coords: Size) -> (r: usize)
        ensures
            r == self.major_of(coords),
    {
        match self {
            Axis::Horizontal => coords.width,
            Axis::Vertical => coords.height,
        }
    }

    /// The magnitude of `coords` along the perpendicular axis.
    pub fn minor(self, coords: Size) -> (r: usize)
        ensures
            r == self.minor_of(coords),
    {
        self.cross().major(coords)
    }

    /// The extent of `rect` along this axis, as a pair.
    pub fn major_span(self, rect: Rect) -> (r: (usize, usize))
        ensures
            r == (match self {
                Axis::Horizontal => (rect.x0, rect.x1),
                Axis::Vertical => (rect.y0, rect.y1),
            }),
    {
        match self {
            Axis::Horizontal => (rect.x0, rect.x1),
            Axis::Vertical => (rect.y0, rect.y1),
        }
    }

    /// The extent of `rect` along the perpendicular axis, as a pair.
    pub fn minor_span(self, rect: Rect) -> (r: (usize, usize))
        ensures
            r == (match self {
                Axis::Horizontal => (rect.y0, rect.y1),
                Axis::Vertical => (rect.x0, rect.x1),
            }),
    {
        self.cross().major_span(rect)
    }

    /// The coordinate of `pos` along this axis.
    pub fn major_pos(self, pos: Point) -> (r: usize)
        ensures
            r == (match self {
                Axis::Horizontal => pos.x,
                Axis::Vertical => pos.y,
            }),
    {
        match self {
            Axis::Horizontal => pos.x,
            Axis::Vertical => pos.y,
        }
    }

    /// The component of `vec` along this axis.
    pub fn major_vec(self, vec: Vec2) -> (r: usize)
        ensures
            r == (match self {
                Axis::Horizontal => vec.x,
                Axis::Vertical => vec.y,
            }),
    {
        match self {
            Axis::Horizontal => vec.x,
            Axis::Vertical => vec.y,
        }
    }

    /// The coordinate of `pos` along the perpendicular axis.
    pub fn minor_pos(self, pos: Point) -> (r: usize)
        ensures
            r == (match self {
                Axis::Horizontal => pos.y,
                Axis::Vertical => pos.x,
            }),
    {
        self.cross().major_pos(pos)
    }

    /// The component of `vec` along the perpendicular axis.
    pub fn minor_vec(self, vec: Vec2) -> (r: usize)
        ensures
            r == (match self {
                Axis::Horizontal => vec.y,
                Axis::Vertical => vec.x,
            }),
    {
        self.cross().major_vec(vec)
    }

    /// Arranges a magnitude along this axis and one across it into an `(x, y)` pair.
    pub fn pack(self, major: usize, minor: usize) -> (r: (usize, usize))
        ensures
            r == self.pack_spec(major, minor),
    {
        match self {
            Axis::Horizontal => (major, minor),
            Axis::Vertical => (minor, major),
        }
    }

    /// `bc` with new bounds `[min_major, major]` along this axis; the bounds across it are kept.
    pub fn constraints(self, bc: &BoxConstraints, min_major: usize, major: usize) -> (r:
        BoxConstraints)
        requires
            bc.wf(),
            min_major <= major,
        ensures
            r.wf(),
            self.rewrites_major(*bc, min_major, major, r),
            r == self.with_major(*bc, min_major, major),
    {
        match self {
            Axis::Horizontal => BoxConstraints::new(
                Size::new(min_major, bc.min().height),
                Size::new(major, bc.max().height),
            ),
            Axis::Vertical => BoxConstraints::new(
                Size::new(bc.min().width, min_major),
                Size::new(bc.max().width, major),
            ),
        }
    }
}

/// Packing a major and a minor magnitude and reading them back gives the same two values.
pub proof fn lemma_pack_round_trip(a: Axis, major: usize, minor: usize)
    ensures
        a.major_of(a.size_of(major, minor)) == major,
        a.minor_of(a.size_of(major, minor)) == minor,
{
}

/// A size is the packing of its own major and minor components.
pub proof fn lemma_unpack_round_trip(a: Axis, s: Size)
    ensures
        a.size_of(a.major_of(s), a.minor_of(s)) == s,
{
}

} // verus!
