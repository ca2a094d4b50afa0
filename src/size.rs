use vstd::prelude::*;

verus! {

/// A non-negative extent in character cells.
#[derive(Clone, Copy, Debug, PartialEq, Eq, Structural)]
pub struct Size {
    pub width: usize,
    pub height: usize,
}

/// `v`, or `usize::MAX` where `v` is larger: a length that saturates at the largest cell count.
pub open spec fn sat(v: nat) -> nat {
    if v > usize::MAX {
        usize::MAX as nat
    } else {
        v
    }
}

/// `a - b`, or zero where `b` exceeds `a`.
pub open spec fn sub_floor(a: int, b: int) -> int {
    if a >= b {
        a - b
    } else {
        0
    }
}

/// The value `v` clamped into `[lo, hi]`.
pub open spec fn clamp_spec(v: int, lo: int, hi: int) -> int {
    if v < lo {
        lo
    } else if v > hi {
        hi
    } else {
        v
    }
}

/// Clamps `v` into `[lo, hi]`.
pub fn clamp_usize(v: usize, lo: usize, hi: usize) -> (r: usize)
    requires
        lo <= hi,
    ensures
        r == clamp_spec(v as int, lo as int, hi as int),
        lo <= r <= hi,
{
    if v < lo {
        lo
    } else if v > hi {
        hi
    } else {
        v
    }
}

impl Size {
    pub open spec fn zero_spec() -> Size {
        Size { width: 0, height: 0 }
    }

    /// The empty size.
    pub fn zero() -> (r: Size)
        ensures
            r == Size::zero_spec(),
    {
        Size { width: 0, height: 0 }
    }

    pub fn new(width: usize, height: usize) -> (r: Size)
        ensures
            r.width == width,
            r.height == height,
    {
        Size { width, height }
    }

    /// The size with both components clamped into the range `[min, max]`.
    pub open spec fn clamp_spec(self, min: Size, max: Size) -> Size {
        Size {
            width: clamp_spec(self.width as int, min.width as int, max.width as int) as usize,
            height: clamp_spec(self.height as int, min.height as int, max.height as int) as usize,
        }
    }

    /// Component-wise clamp into the range `[min, max]`.
    pub fn clamp(&self, min: Size, max: Size) -> (r: Size)
        requires
            min.width <= max.width,
            min.height <= max.height,
        ensures
            r == self.clamp_spec(min, max),
            min.width <= r.width <= max.width,
            min.height <= r.height <= max.height,
    {
        Size {
            width: clamp_usize(self.width, min.width, max.width),
            height: clamp_usize(self.height, min.height, max.height),
        }
    }
}

impl From<(u16, u16)> for Size {
    /// The size of a terminal given as `(columns, rows)`.
    fn from(s: (u16, u16)) -> (r: Size) {
        Size { width: s.0 as usize, height: s.1 as usize }
    }
}

impl vstd::std_specs::convert::FromSpecImpl<(u16, u16)> for Size {
    open spec fn obeys_from_spec() -> bool {
        true
    }

    open spec fn from_spec(s: (u16, u16)) -> Size {
        Size { width: s.0 as usize, height: s.1 as usize }
    }
}

impl From<(usize, usize)> for Size {
    /// The size `(width, height)`.
    fn from(s: (usize, usize)) -> (r: Size) {
        Size { width: s.0, height: s.1 }
    }
}

impl vstd::std_specs::convert::FromSpecImpl<(usize, usize)> for Size {
    open spec fn obeys_from_spec() -> bool {
        true
    }

    open spec fn from_spec(s: (usize, usize)) -> Size {
        Size { width: s.0, height: s.1 }
    }
}

} // verus!
