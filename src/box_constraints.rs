use vstd::prelude::*;

use crate::size::{sub_floor, Size};

verus! {

/// A minimum and a maximum size; a layout must settle on a size between them.
#[derive(Clone, Copy, Debug)]
pub struct BoxConstraints {
    min: Size,
    max: Size,
}

impl BoxConstraints {
    /// The lower bound.
    pub closed spec fn lower(&self) -> Size {
        self.min
    }

    /// The upper bound.
    pub closed spec fn upper(&self) -> Size {
        self.max
    }

    /// The constraints with bounds `[min, max]`.
    pub closed spec fn from_bounds(min: Size, max: Size) -> BoxConstraints {
        BoxConstraints { min, max }
    }

    /// The lower bound does not exceed the upper bound on either axis.
    pub open spec fn wf(&self) -> bool {
        &&& self.lower().width <= self.upper().width
        &&& self.lower().height <= self.upper().height
    }

    /// `s` lies within the bounds on both axes.
    pub open spec fn contains_spec(&self, s: Size) -> bool {
        &&& self.lower().width <= s.width <= self.upper().width
        &&& self.lower().height <= s.height <= self.upper().height
    }

    /// `s` clamped into the bounds on both axes.
    pub open spec fn constrain_spec(&self, s: Size) -> Size {
        s.clamp_spec(self.lower(), self.upper())
    }

    /// An unbounded constraint, satisfied by any size.
    pub fn big() -> (r: BoxConstraints)
        ensures
            r.wf(),
            r.lower() == Size::zero_spec(),
            r.upper() == (Size { width: usize::MAX, height: usize::MAX }),
    {
        BoxConstraints { min: Size::zero(), max: Size::new(usize::MAX, usize::MAX) }
    }

    /// Constraints from a minimum and a maximum size.
    pub fn new(min: Size, max: Size) -> (r: BoxConstraints)
        requires
            min.width <= max.width,
            min.height <= max.height,
        ensures
            r.wf(),
            r.lower() == min,
            r.upper() == max,
            r == BoxConstraints::from_bounds(min, max),
    {
        BoxConstraints { min, max }
    }

    /// Constraints that only `size` satisfies.
    pub fn tight(size: Size) -> (r: BoxConstraints)
        ensures
            r.wf(),
            r.lower() == size,
            r.upper() == size,
            r == BoxConstraints::from_bounds(size, size),
    {
        BoxConstraints { min: size, max: size }
    }

    /// The same upper bound with a zero lower bound.
    pub fn loosen(&self) -> (r: BoxConstraints)
        requires
            self.wf(),
        ensures
            r.wf(),
            r.lower() == Size::zero_spec(),
            r.upper() == self.upper(),
            r == BoxConstraints::from_bounds(Size::zero_spec(), self.upper()),
    {
        BoxConstraints { min: Size::zero(), max: self.max }
    }

    /// `size` clamped into the bounds.
    pub fn constrain(&self, size: Size) -> (r: Size)
        requires
            self.wf(),
        ensures
            r == self.constrain_spec(size),
            self.contains_spec(r),
    {
        size.clamp(self.min, self.max)
    }

    /// The upper bound.
    pub fn max(&self) -> (r: Size)
        ensures
            r == self.upper(),
    {
        self.max
    }

    /// The lower bound.
    pub fn min(&self) -> (r: Size)
        ensures
            r == self.lower(),
    {
        self.min
    }

    /// Whether the width has an upper bound; `usize::MAX` stands for none.
    pub fn is_width_bounded(&self) -> (r: bool)
        ensures
            r == (self.upper().width != usize::MAX),
    {
        self.max.width != usize::MAX
    }

    /// Whether the height has an upper bound; `usize::MAX` stands for none.
    pub fn is_height_bounded(&self) -> (r: bool)
        ensures
            r == (self.upper().height != usize::MAX),
    {
        self.max.height != usize::MAX
    }

    /// Both bounds reduced by `diff`, each component floored at zero.
    pub fn shrink(&self, diff: Size) -> (r: BoxConstraints)
        requires
            self.wf(),
        ensures
            r.wf(),
            r.lower().width == sub_floor(self.lower().width as int, diff.width as int),
            r.lower().height == sub_floor(self.lower().height as int, diff.height as int),
            r.upper().width == sub_floor(self.upper().width as int, diff.width as int),
            r.upper().height == sub_floor(self.upper().height as int, diff.height as int),
    {
        let min = Size::new(
            self.min.width.saturating_sub(diff.width),
            self.min.height.saturating_sub(diff.height),
        );
        let max = Size::new(
            self.max.width.saturating_sub(diff.width),
            self.max.height.saturating_sub(diff.height),
        );
        BoxConstraints::new(min, max)
    }

    /// Whether `size` lies within the bounds.
    pub fn contains(&self, size: Size) -> (r: bool)
        ensures
            r == self.contains_spec(size),
    {
        (self.min.width <= size.width && size.width <= self.max.width) && (self.min.height
            <= size.height && size.height <= self.max.height)
    }
}

/// Constraints are determined by their two bounds.
pub proof fn lemma_from_bounds(min: Size, max: Size, bc: BoxConstraints)
    ensures
        BoxConstraints::from_bounds(min, max).lower() == min,
        BoxConstraints::from_bounds(min, max).upper() == max,
        bc == BoxConstraints::from_bounds(bc.lower(), bc.upper()),
{
}

/// Any size, once constrained, lies within the constraints.
pub proof fn lemma_constrain_within(bc: BoxConstraints, s: Size)
    requires
        bc.wf(),
    ensures
        bc.contains_spec(bc.constrain_spec(s)),
        bc.contains_spec(s) ==> bc.constrain_spec(s) == s,
{
}

impl From<(u16, u16)> for BoxConstraints {
    /// Constraints for a terminal of `(columns, rows)`: anything up to that size.
    fn from(s: (u16, u16)) -> (r: BoxConstraints) {
        BoxConstraints { min: Size::zero(), max: Size::from(s) }
    }
}

impl vstd::std_specs::convert::FromSpecImpl<(u16, u16)> for BoxConstraints {
    open spec fn obeys_from_spec() -> bool {
        true
    }

    open spec fn from_spec(s: (u16, u16)) -> BoxConstraints {
        BoxConstraints::from_bounds(
            Size::zero_spec(),
            Size { width: s.0 as usize, height: s.1 as usize },
        )
    }
}

} // verus!
