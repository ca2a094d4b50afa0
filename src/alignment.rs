use vstd::prelude::*;

verus! {

/// Where a child sits within the cross-axis room of its container.
#[derive(Debug, Clone, Copy, PartialEq, Eq, Structural)]
pub enum CrossAxisAlignment {
    /// Top or leading edge.
    Start,
    /// Centered in the container.
    Center,
    /// Bottom or trailing edge.
    End,
    /// Baselines lined up; in a vertical container this acts as `Center`.
    Baseline,
    /// Stretched to the container's cross-axis size.
    Fill,
}

/// How leftover main-axis room is spread around the children.
#[derive(Debug, Clone, Copy, PartialEq, Eq, Structural)]
pub enum MainAxisAlignment {
    /// Children packed at the leading edge; all room after them.
    Start,
    /// Children centered; the room split between both ends.
    Center,
    /// Children packed at the trailing edge; all room before them.
    End,
    /// Room spread evenly between children, none at the ends.
    SpaceBetween,
    /// Room spread evenly between children and at both ends.
    SpaceEvenly,
    /// Room spread between children, with half as much at each end.
    SpaceAround,
}

/// Half of `v`, rounded half up.
pub open spec fn half_round_up(v: int) -> int {
    v / 2 + v % 2
}

impl CrossAxisAlignment {
    /// The offset that this alignment gives a child with `slack` cells of spare cross-axis room.
    pub open spec fn align_spec(self, slack: usize) -> usize {
        match self {
            CrossAxisAlignment::Start => 0,
            CrossAxisAlignment::Center | CrossAxisAlignment::Baseline => half_round_up(
                slack as int,
            ) as usize,
            CrossAxisAlignment::End => slack,
            CrossAxisAlignment::Fill => 0,
        }
    }

    /// Given the difference between the cross-axis size of the container and that of
    /// the child, the offset of the child under this alignment.
    pub fn align(self, slack: usize) -> (r: usize)
        ensures
            r == self.align_spec(slack),
            r <= slack,
    {
        match self {
            CrossAxisAlignment::Start => 0,
            CrossAxisAlignment::Center | CrossAxisAlignment::Baseline => slack / 2 + slack % 2,
            CrossAxisAlignment::End => slack,
            CrossAxisAlignment::Fill => 0,
        }
    }
}

} // verus!
