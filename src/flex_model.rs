use vstd::prelude::*;

use crate::alignment::{CrossAxisAlignment, MainAxisAlignment};
use crate::axis::Axis;
use crate::box_constraints::BoxConstraints;
use crate::geometry::Point;
use crate::size::{sat, sub_floor, Size};
use crate::spacing::{gap_spec, gaps_sum, lemma_gaps_sum_to_slack};
use vstd::arithmetic::div_mod::{lemma_div_is_ordered, lemma_div_multiples_vanish};
use vstd::arithmetic::mul::lemma_mul_inequality;

verus! {

/// The settings of a flex container that its layout reads.
#[derive(Clone, Copy, Debug, PartialEq, Eq, Structural)]
pub struct FlexConfig {
    pub direction: Axis,
    pub cross: CrossAxisAlignment,
    pub main: MainAxisAlignment,
    pub fill: bool,
}

/// What kind of entry a child is, with its flex factor or its length.
pub ghost enum Slot {
    Fixed,
    Flex(nat),
    Spacer(nat),
    FlexSpacer(nat),
}

/// What a layout reads of a child: its kind, its alignment override, and the size its
/// widget settles on under each constraint.
pub ghost struct ChildShape {
    pub slot: Slot,
    pub alignment: Option<CrossAxisAlignment>,
    pub measure: spec_fn(BoxConstraints) -> Size,
}

// ---- proportional shares ----------------------------------------------------------------
/// The flex factor of a slot; zero for what does not flex.
pub open spec fn slot_weight(slot: Slot) -> nat {
    match slot {
        Slot::Flex(f) => f,
        Slot::FlexSpacer(f) => f,
        _ => 0,
    }
}

/// The sum of the first `i` factors.
pub open spec fn prefix_sum(ws: Seq<nat>, i: int) -> nat
    decreases i,
{
    if i <= 0 || ws.len() == 0 {
        0
    } else if i > ws.len() {
        prefix_sum(ws, ws.len() as int)
    } else {
        prefix_sum(ws, i - 1) + ws[i - 1]
    }
}

/// What the entries with factors summing to `p` receive together out of `r`: their exact
/// share `p * r / f` rounded to the nearest integer, halves rounded up.
pub open spec fn share(ws: Seq<nat>, r: nat, p: nat) -> nat {
    let f = prefix_sum(ws, ws.len() as int);
    if f == 0 {
        0
    } else {
        ((2 * p * r + f) / (2 * f)) as nat
    }
}

/// The length given to entry `i`: the rounded share of the entries up to and including it,
/// less what the entries before it received. The rounding error of each entry is thereby
/// carried into the next.
pub open spec fn allotment(ws: Seq<nat>, r: nat, i: int) -> int {
    share(ws, r, prefix_sum(ws, i + 1)) - share(ws, r, prefix_sum(ws, i))
}

/// The sum of the first `k` allotments.
pub open spec fn allotments_sum(ws: Seq<nat>, r: nat, k: int) -> int
    decreases k,
{
    if k <= 0 {
        0
    } else {
        allotments_sum(ws, r, k - 1) + allotment(ws, r, k - 1)
    }
}

proof fn lemma_prefix_sum_step(ws: Seq<nat>, k: int)
    ensures
        prefix_sum(ws, k) <= prefix_sum(ws, k + 1),
{
    if k + 1 > ws.len() && k > ws.len() {
        assert(prefix_sum(ws, k) == prefix_sum(ws, ws.len() as int));
        assert(prefix_sum(ws, k + 1) == prefix_sum(ws, ws.len() as int));
    }
}

proof fn lemma_prefix_sum_monotone(ws: Seq<nat>, i: int, j: int)
    requires
        i <= j,
    ensures
        prefix_sum(ws, i) <= prefix_sum(ws, j),
        prefix_sum(ws, j) <= prefix_sum(ws, ws.len() as int),
    decreases j - i,
{
    if i < j {
        lemma_prefix_sum_monotone(ws, i, j - 1);
        lemma_prefix_sum_step(ws, j - 1);
        lemma_prefix_sum_upto_total(ws, j, ws.len() as int);
    } else {
        lemma_prefix_sum_upto_total(ws, j, ws.len() as int);
    }
}

proof fn lemma_prefix_sum_upto_total(ws: Seq<nat>, j: int, k: int)
    requires
        k == ws.len(),
    ensures
        prefix_sum(ws, j) <= prefix_sum(ws, k),
    decreases k - j,
{
    if j < k {
        lemma_prefix_sum_upto_total(ws, j + 1, k);
        lemma_prefix_sum_step(ws, j);
    } else if j > k && ws.len() > 0 {
        assert(prefix_sum(ws, j) == prefix_sum(ws, k));
    }
}

/// Shares grow with the factors they cover, and all factors together receive `r`.
pub proof fn lemma_share_bounds(ws: Seq<nat>, r: nat, p: nat, q: nat)
    requires
        p <= q <= prefix_sum(ws, ws.len() as int),
    ensures
        share(ws, r, p) <= share(ws, r, q) <= r,
        share(ws, r, 0) == 0,
        prefix_sum(ws, ws.len() as int) > 0 ==> share(ws, r, prefix_sum(ws, ws.len() as int))
            == r,
{
    let f = prefix_sum(ws, ws.len() as int) as int;
    if f > 0 {
        let a = 2 * p * r + f;
        let b = 2 * q * r + f;
        let c = 2 * f * r + f;
        assert(a <= b) by (nonlinear_arith)
            requires
                p <= q,
                a == 2 * p * r + f,
                b == 2 * q * r + f,
        ;
        assert(b <= c) by (nonlinear_arith)
            requires
                q <= f,
                c == 2 * f * r + f,
                b == 2 * q * r + f,
        ;
        lemma_div_is_ordered(a, b, 2 * f);
        lemma_div_is_ordered(b, c, 2 * f);
        assert(c / (2 * f) == r) by {
            assert(c == (2 * f) * r + f) by (nonlinear_arith)
                requires
                    c == 2 * f * r + f,
            ;
            vstd::arithmetic::div_mod::lemma_fundamental_div_mod_converse(c, 2 * f, r as int, f);
        }
        assert(f / (2 * f) == 0) by {
            vstd::arithmetic::div_mod::lemma_fundamental_div_mod_converse(f, 2 * f, 0, f);
        }
        assert(2 * 0 * r + f == f) by (nonlinear_arith);
        assert(a >= 0) by (nonlinear_arith)
            requires
                a == 2 * p * r + f,
                f > 0,
        ;
        vstd::arithmetic::div_mod::lemma_div_pos_is_pos(a, 2 * f);
    }
}

/// Each allotment lies in `[0, r]`.
pub proof fn lemma_allotment_bounds(ws: Seq<nat>, r: nat, i: int)
    ensures
        0 <= allotment(ws, r, i) <= r,
{
    lemma_prefix_sum_monotone(ws, i, i + 1);
    lemma_share_bounds(ws, r, prefix_sum(ws, i), prefix_sum(ws, i + 1));
}

/// The first `k` allotments together receive the rounded share of the first `k` factors.
pub proof fn lemma_allotments_prefix(ws: Seq<nat>, r: nat, k: int)
    requires
        0 <= k,
    ensures
        allotments_sum(ws, r, k) == share(ws, r, prefix_sum(ws, k)),
    decreases k,
{
    if k == 0 {
        lemma_share_bounds(ws, r, 0, 0);
    } else {
        lemma_allotments_prefix(ws, r, k - 1);
    }
}

/// The share of the factors summing to `p` is within half a unit of the exact share
/// `p * r / f`: `|2 f share - 2 p r| <= f`.
pub proof fn lemma_share_error(ws: Seq<nat>, r: nat, p: nat)
    requires
        prefix_sum(ws, ws.len() as int) > 0,
    ensures
        ({
            let f = prefix_sum(ws, ws.len() as int) as int;
            let e = 2 * f * share(ws, r, p) - 2 * p * r;
            -f < e <= f
        }),
{
    let f = prefix_sum(ws, ws.len() as int) as int;
    let x = 2 * p * r + f;
    assert(x >= 0) by (nonlinear_arith)
        requires
            x == 2 * p * r + f,
            f > 0,
    ;
    vstd::arithmetic::div_mod::lemma_fundamental_div_mod(x, 2 * f);
    vstd::arithmetic::div_mod::lemma_mod_pos_bound(x, 2 * f);
    vstd::arithmetic::div_mod::lemma_div_pos_is_pos(x, 2 * f);
    assert(2 * f * (x / (2 * f)) == (2 * f) * (x / (2 * f))) by (nonlinear_arith);
}

/// After any number `k` of entries, the lengths given so far are within half a unit of the
/// exact share of the factors so far: the rounding error never accumulates.
pub proof fn lemma_allotments_close(ws: Seq<nat>, r: nat, k: int)
    requires
        0 <= k,
        prefix_sum(ws, ws.len() as int) > 0,
    ensures
        ({
            let f = prefix_sum(ws, ws.len() as int) as int;
            let e = 2 * f * allotments_sum(ws, r, k) - 2 * prefix_sum(ws, k) * r;
            -f < e <= f
        }),
{
    lemma_allotments_prefix(ws, r, k);
    lemma_share_error(ws, r, prefix_sum(ws, k));
}

/// Rounding with the error carried forward loses nothing: where any factor is positive,
/// the allotments of all entries add up to `r` exactly, each within `[0, r]`.
pub proof fn lemma_allotments_lossless(ws: Seq<nat>, r: nat)
    requires
        prefix_sum(ws, ws.len() as int) > 0,
    ensures
        allotments_sum(ws, r, ws.len() as int) == r,
        forall|i: int| 0 <= i < ws.len() ==> 0 <= #[trigger] allotment(ws, r, i) <= r,
{
    lemma_allotments_prefix(ws, r, ws.len() as int);
    lemma_share_bounds(ws, r, 0, prefix_sum(ws, ws.len() as int));
    assert forall|i: int| 0 <= i < ws.len() implies 0 <= #[trigger] allotment(ws, r, i) <= r by {
        lemma_allotment_bounds(ws, r, i);
    }
}

// ---- the layout of a container --------------------------------------------------------
/// Whether a slot holds a widget.
pub open spec fn is_content(slot: Slot) -> bool {
    slot is Fixed || slot is Flex
}

/// The flex factors of the children, zero for those that do not flex.
pub open spec fn weights(s: Seq<ChildShape>) -> Seq<nat> {
    Seq::new(s.len(), |i: int| slot_weight(s[i].slot))
}

/// The sum of all flex factors.
pub open spec fn flex_sum(s: Seq<ChildShape>) -> nat {
    prefix_sum(weights(s), s.len() as int)
}

pub open spec fn max_nat(a: nat, b: nat) -> nat {
    if a >= b {
        a
    } else {
        b
    }
}

/// The offset across the axis of a child of cross-axis size `cm` that follows `al`, in a
/// container that aligns within `dim`, is `total` across, and whose largest child is `max`
/// across. Baseline alignment in a row puts the child's bottom edge, where its baseline
/// lies, on the lowest bottom edge of all children.
pub open spec fn cross_offset(
    direction: Axis,
    al: CrossAxisAlignment,
    cm: nat,
    dim: nat,
    total: nat,
    max: nat,
) -> nat {
    if al == CrossAxisAlignment::Baseline && direction == Axis::Horizontal {
        ((total - dim) + (max - cm)) as nat
    } else if al == CrossAxisAlignment::Fill {
        0
    } else {
        al.align_spec((dim - cm) as usize) as nat
    }
}

/// What a filling child of first size `first` is offered: exactly its length along the
/// axis and `dim` across.
pub open spec fn fill_bc(direction: Axis, first: Size, dim: nat) -> BoxConstraints {
    BoxConstraints::from_bounds(
        direction.size_of(direction.major_of(first), dim as usize),
        direction.size_of(direction.major_of(first), dim as usize),
    )
}

impl FlexConfig {
    /// The constraints offered to children: the container's own, without a lower bound.
    pub open spec fn loose(bc: BoxConstraints) -> BoxConstraints {
        BoxConstraints::from_bounds(Size::zero_spec(), bc.upper())
    }

    /// What a fixed child is offered: any length along the axis, the loosened bounds across.
    pub open spec fn fixed_bc(self, bc: BoxConstraints) -> BoxConstraints {
        self.direction.with_major(FlexConfig::loose(bc), 0, usize::MAX)
    }

    /// What a flex child with allotment `a` is offered: exactly `a` along the axis.
    pub open spec fn flex_bc(self, bc: BoxConstraints, a: nat) -> BoxConstraints {
        self.direction.with_major(FlexConfig::loose(bc), a as usize, a as usize)
    }

    /// The room along the axis; `usize::MAX` stands for unbounded.
    pub open spec fn total_major(self, bc: BoxConstraints) -> nat {
        self.direction.major_of(bc.upper()) as nat
    }

    pub open spec fn bounded(self, bc: BoxConstraints) -> bool {
        self.total_major(bc) != usize::MAX
    }

    /// The length that child `i` takes before any room is shared out.
    pub open spec fn fixed_extent(self, s: Seq<ChildShape>, bc: BoxConstraints, i: int) -> nat {
        match s[i].slot {
            Slot::Fixed => self.direction.major_of((s[i].measure)(self.fixed_bc(bc))) as nat,
            Slot::Spacer(len) => len,
            _ => 0,
        }
    }

    /// The summed fixed extents of the first `i` children.
    pub open spec fn non_flex_upto(self, s: Seq<ChildShape>, bc: BoxConstraints, i: int) -> nat
        decreases i,
    {
        if i <= 0 {
            0
        } else {
            self.non_flex_upto(s, bc, i - 1) + self.fixed_extent(s, bc, i - 1)
        }
    }

    /// The room left after the fixed entries. Flexible entries cannot share an unbounded
    /// length, so where there are any and the axis is unbounded, none is left.
    pub open spec fn remaining(self, s: Seq<ChildShape>, bc: BoxConstraints) -> nat {
        if !self.bounded(bc) && flex_sum(s) > 0 {
            0
        } else {
            sub_floor(self.total_major(bc) as int, self.non_flex_upto(s, bc, s.len() as int) as int) as nat
        }
    }

    /// The length shared out to child `i` (zero for one that does not flex).
    pub open spec fn allot(self, s: Seq<ChildShape>, bc: BoxConstraints, i: int) -> nat {
        allotment(weights(s), self.remaining(s, bc), i) as nat
    }

    /// The constraints that widget child `i` is offered in the measuring passes: a fixed
    /// child any length along the axis, a flex child exactly its share.
    pub open spec fn offered(self, s: Seq<ChildShape>, bc: BoxConstraints, i: int) -> BoxConstraints {
        match s[i].slot {
            Slot::Flex(_) => self.flex_bc(bc, self.allot(s, bc, i)),
            _ => self.fixed_bc(bc),
        }
    }

    /// The size that child `i` settles on in the measuring passes.
    pub open spec fn first_size(self, s: Seq<ChildShape>, bc: BoxConstraints, i: int) -> Size {
        if is_content(s[i].slot) {
            (s[i].measure)(self.offered(s, bc, i))
        } else {
            Size::zero_spec()
        }
    }

    /// The length that child `i` takes out of the shared room.
    pub open spec fn flex_extent(self, s: Seq<ChildShape>, bc: BoxConstraints, i: int) -> nat {
        match s[i].slot {
            Slot::Flex(_) => self.direction.major_of(self.first_size(s, bc, i)) as nat,
            Slot::FlexSpacer(_) => self.allot(s, bc, i),
            _ => 0,
        }
    }

    /// The summed flexible extents of the first `i` children.
    pub open spec fn flex_used_upto(self, s: Seq<ChildShape>, bc: BoxConstraints, i: int) -> nat
        decreases i,
    {
        if i <= 0 {
            0
        } else {
            self.flex_used_upto(s, bc, i - 1) + self.flex_extent(s, bc, i - 1)
        }
    }

    /// The length of child `i` along the axis.
    pub open spec fn extent(self, s: Seq<ChildShape>, bc: BoxConstraints, i: int) -> nat {
        self.fixed_extent(s, bc, i) + self.flex_extent(s, bc, i)
    }

    /// The summed lengths of the first `i` children.
    pub open spec fn extents_upto(self, s: Seq<ChildShape>, bc: BoxConstraints, i: int) -> nat
        decreases i,
    {
        if i <= 0 {
            0
        } else {
            self.extents_upto(s, bc, i - 1) + self.extent(s, bc, i - 1)
        }
    }

    /// The largest cross-axis size among the first `i` children that are fixed
    /// (`flexible == false`) or flex (`flexible == true`) widgets.
    pub open spec fn minor_upto(
        self,
        s: Seq<ChildShape>,
        bc: BoxConstraints,
        i: int,
        flexible: bool,
    ) -> nat
        decreases i,
    {
        if i <= 0 {
            0
        } else {
            let m = self.minor_upto(s, bc, i - 1, flexible);
            let counts = if flexible {
                s[i - 1].slot is Flex
            } else {
                s[i - 1].slot is Fixed
            };
            if counts {
                max_nat(m, self.direction.minor_of(self.first_size(s, bc, i - 1)) as nat)
            } else {
                m
            }
        }
    }

    /// The largest cross-axis size among all widget children.
    pub open spec fn minor_max(self, s: Seq<ChildShape>, bc: BoxConstraints) -> nat {
        max_nat(
            self.minor_upto(s, bc, s.len() as int, false),
            self.minor_upto(s, bc, s.len() as int, true),
        )
    }

    /// The cross-axis size of the container: that of its largest child, at least the minimum.
    pub open spec fn minor_total(self, s: Seq<ChildShape>, bc: BoxConstraints) -> nat {
        max_nat(self.direction.minor_of(bc.lower()) as nat, self.minor_max(s, bc))
    }

    /// The alignment that child `i` follows: its own, else the container's.
    pub open spec fn effective(self, s: Seq<ChildShape>, i: int) -> CrossAxisAlignment {
        match s[i].alignment {
            Some(a) => a,
            None => self.cross,
        }
    }

    /// Baseline alignment is honoured where the container asks for it and every widget
    /// child follows it.
    pub open spec fn baseline_honored(self, s: Seq<ChildShape>) -> bool {
        &&& self.cross == CrossAxisAlignment::Baseline
        &&& forall|j: int|
            0 <= j < s.len() && is_content(#[trigger] s[j].slot) ==> self.effective(s, j)
                == CrossAxisAlignment::Baseline
    }

    /// The cross-axis size that the children are aligned within.
    pub open spec fn minor_dim(self, s: Seq<ChildShape>, bc: BoxConstraints) -> nat {
        if self.direction == Axis::Horizontal && self.baseline_honored(s) {
            self.minor_max(s, bc)
        } else {
            self.minor_total(s, bc)
        }
    }

    /// The room along the axis left over after all children, to be spread as gaps.
    pub open spec fn extra(self, s: Seq<ChildShape>, bc: BoxConstraints) -> nat {
        let n = s.len() as int;
        if self.fill {
            sub_floor(self.remaining(s, bc) as int, self.flex_used_upto(s, bc, n) as int) as nat
        } else {
            sub_floor(
                self.direction.major_of(bc.lower()) as int,
                (self.non_flex_upto(s, bc, n) + self.flex_used_upto(s, bc, n)) as int,
            ) as nat
        }
    }

    /// Where child `i` starts along the axis (for `i == len`, where the last one ends,
    /// with the trailing gap): the gaps up to it and the children before it.
    pub open spec fn position(self, s: Seq<ChildShape>, bc: BoxConstraints, i: int) -> nat {
        sat(
            (gaps_sum(self.main, self.extra(s, bc), s.len(), (i + 1) as nat)
                + self.extents_upto(s, bc, i)) as nat,
        )
    }

    /// The offset of widget child `i` across the axis.
    pub open spec fn minor_offset(self, s: Seq<ChildShape>, bc: BoxConstraints, i: int) -> nat {
        cross_offset(
            self.direction,
            self.effective(s, i),
            self.direction.minor_of(self.first_size(s, bc, i)) as nat,
            self.minor_dim(s, bc),
            self.minor_total(s, bc),
            self.minor_max(s, bc),
        )
    }

    /// Where widget child `i` is placed.
    pub open spec fn origin(self, s: Seq<ChildShape>, bc: BoxConstraints, i: int) -> Point {
        let p = self.direction.pack_spec(
            self.position(s, bc, i) as usize,
            self.minor_offset(s, bc, i) as usize,
        );
        Point { x: p.0, y: p.1 }
    }

    /// The size that widget child `i` ends with: a filling child is laid out again to the
    /// container's cross-axis size.
    pub open spec fn final_size(self, s: Seq<ChildShape>, bc: BoxConstraints, i: int) -> Size {
        let first = self.first_size(s, bc, i);
        if self.effective(s, i) == CrossAxisAlignment::Fill {
            (s[i].measure)(fill_bc(self.direction, first, self.minor_dim(s, bc)))
        } else {
            first
        }
    }

    /// The length of the container along its axis, before it is clamped.
    pub open spec fn major_total(self, s: Seq<ChildShape>, bc: BoxConstraints) -> nat {
        if flex_sum(s) > 0 && self.bounded(bc) {
            self.total_major(bc)
        } else {
            self.position(s, bc, s.len() as int)
        }
    }

    /// The size that the container settles on under `bc`.
    pub open spec fn size(self, s: Seq<ChildShape>, bc: BoxConstraints) -> Size {
        if s.len() == 0 {
            bc.constrain_spec(Size::zero_spec())
        } else {
            let raw = self.direction.size_of(
                self.major_total(s, bc) as usize,
                self.minor_dim(s, bc) as usize,
            );
            if self.fill {
                bc.constrain_spec(raw)
            } else {
                self.direction.with_major(bc, 0, self.direction.major_of(bc.upper())).constrain_spec(
                    raw,
                )
            }
        }
    }
}

/// The length of the first `i` children splits into their fixed and their flexible parts.
pub proof fn lemma_extents_split(cfg: FlexConfig, s: Seq<ChildShape>, bc: BoxConstraints, i: int)
    ensures
        cfg.extents_upto(s, bc, i) == cfg.non_flex_upto(s, bc, i) + cfg.flex_used_upto(s, bc, i),
    decreases i,
{
    if i > 0 {
        lemma_extents_split(cfg, s, bc, i - 1);
    }
}

/// The size that a container settles on lies within its constraints.
pub proof fn lemma_size_fits(cfg: FlexConfig, s: Seq<ChildShape>, bc: BoxConstraints)
    requires
        bc.wf(),
    ensures
        bc.contains_spec(cfg.size(s, bc)),
{
    let n = s.len() as int;
    if n > 0 && !cfg.fill {
        let d = cfg.direction;
        let lower = d.major_of(bc.lower()) as int;
        lemma_gaps_sum_to_slack(cfg.main, cfg.extra(s, bc), s.len());
        lemma_extents_split(cfg, s, bc, n);
        assert(cfg.major_total(s, bc) >= lower);
        crate::box_constraints::lemma_from_bounds(
            d.size_of(0, d.minor_of(bc.lower())),
            d.size_of(d.major_of(bc.upper()), d.minor_of(bc.upper())),
            bc,
        );
    }
}

/// The largest cross-axis size among the first `i` widget children of a kind bounds each of them.
pub proof fn lemma_minor_upto_bound(
    cfg: FlexConfig,
    s: Seq<ChildShape>,
    bc: BoxConstraints,
    i: int,
    j: int,
    flexible: bool,
)
    requires
        0 <= j < i,
        if flexible {
            s[j].slot is Flex
        } else {
            s[j].slot is Fixed
        },
    ensures
        cfg.direction.minor_of(cfg.first_size(s, bc, j)) <= cfg.minor_upto(s, bc, i, flexible),
    decreases i,
{
    if j < i - 1 {
        lemma_minor_upto_bound(cfg, s, bc, i - 1, j, flexible);
    }
}

/// The sum of the first `i + 1` factors adds factor `i` to the sum of the first `i`.
pub proof fn lemma_prefix_sum_next(ws: Seq<nat>, i: int)
    requires
        0 <= i < ws.len(),
    ensures
        prefix_sum(ws, i + 1) == prefix_sum(ws, i) + ws[i],
        prefix_sum(ws, i + 1) <= prefix_sum(ws, ws.len() as int),
{
    lemma_prefix_sum_monotone(ws, i + 1, i + 1);
}

/// The flexible lengths of the first `i` children add up to the rounded share of their factors.
pub proof fn lemma_flex_used_is_share(cfg: FlexConfig, s: Seq<ChildShape>, bc: BoxConstraints, i: int)
    requires
        0 <= i <= s.len(),
        forall|j: int|
            0 <= j < s.len() && (#[trigger] s[j].slot) is Flex ==> cfg.direction.major_of(
                cfg.first_size(s, bc, j),
            ) == cfg.allot(s, bc, j),
    ensures
        cfg.flex_used_upto(s, bc, i) == share(weights(s), cfg.remaining(s, bc), prefix_sum(weights(s), i)),
    decreases i,
{
    let ws = weights(s);
    let r = cfg.remaining(s, bc);
    if i == 0 {
        lemma_share_bounds(ws, r, 0, 0);
    } else {
        lemma_flex_used_is_share(cfg, s, bc, i - 1);
        lemma_prefix_sum_next(ws, i - 1);
        lemma_allotment_bounds(ws, r, i - 1);
        match s[i - 1].slot {
            Slot::Flex(_) => {},
            Slot::FlexSpacer(_) => {},
            _ => {
                assert(ws[i - 1] == 0);
            },
        }
    }
}

/// Moving past child `i` and the gap after it takes the start of child `i` to that of child `i + 1`.
pub proof fn lemma_position_step(cfg: FlexConfig, s: Seq<ChildShape>, bc: BoxConstraints, i: int)
    requires
        0 <= i < s.len(),
        0 <= gap_spec(cfg.main, cfg.extra(s, bc), s.len(), i + 1),
    ensures
        cfg.position(s, bc, i + 1) == sat(
            (cfg.position(s, bc, i) + cfg.extent(s, bc, i) + gap_spec(
                cfg.main,
                cfg.extra(s, bc),
                s.len(),
                i + 1,
            )) as nat,
        ),
{
    let e = cfg.extra(s, bc);
    assert(gaps_sum(cfg.main, e, s.len(), (i + 2) as nat) == gaps_sum(cfg.main, e, s.len(), (i + 1) as nat)
        + gap_spec(cfg.main, e, s.len(), i + 1));
    crate::spacing::lemma_gaps_sum_prefix(cfg.main, e, s.len(), (i + 1) as nat);
    crate::spacing::lemma_slack_upto_bounds(cfg.main, e, s.len(), i);
    assert(cfg.extents_upto(s, bc, i + 1) == cfg.extents_upto(s, bc, i) + cfg.extent(s, bc, i));
}

/// The first child starts after the leading gap.
pub proof fn lemma_position_first(cfg: FlexConfig, s: Seq<ChildShape>, bc: BoxConstraints)
    requires
        0 <= gap_spec(cfg.main, cfg.extra(s, bc), s.len(), 0) <= usize::MAX,
    ensures
        cfg.position(s, bc, 0) == gap_spec(cfg.main, cfg.extra(s, bc), s.len(), 0),
{
    let e = cfg.extra(s, bc);
    assert(gaps_sum(cfg.main, e, s.len(), 0) == 0);
    assert(gaps_sum(cfg.main, e, s.len(), 1) == gap_spec(cfg.main, e, s.len(), 0));
}

/// Every widget settles on a size within whatever well-formed constraints it is offered.
pub open spec fn shapes_fit(s: Seq<ChildShape>) -> bool {
    forall|j: int, c: BoxConstraints|
        0 <= j < s.len() && is_content(s[j].slot) && c.wf() ==> c.contains_spec(
            #[trigger] (s[j].measure)(c),
        )
}

/// In a container whose flex factors sum to more than zero, the lengths given to the
/// flexible entries add up to exactly the room that the fixed entries leave.
pub proof fn lemma_flex_lengths_fill_remaining(cfg: FlexConfig, s: Seq<ChildShape>, bc: BoxConstraints)
    requires
        bc.wf(),
        flex_sum(s) > 0,
        shapes_fit(s),
    ensures
        cfg.flex_used_upto(s, bc, s.len() as int) == cfg.remaining(s, bc),
{
    assert forall|j: int|
        0 <= j < s.len() && (#[trigger] s[j].slot) is Flex implies cfg.direction.major_of(
        cfg.first_size(s, bc, j),
    ) == cfg.allot(s, bc, j) by {
        let c = cfg.flex_bc(bc, cfg.allot(s, bc, j));
        lemma_allotment_bounds(weights(s), cfg.remaining(s, bc), j);
        crate::box_constraints::lemma_from_bounds(
            cfg.direction.size_of(cfg.allot(s, bc, j) as usize, cfg.direction.minor_of(FlexConfig::loose(bc).lower())),
            cfg.direction.size_of(cfg.allot(s, bc, j) as usize, cfg.direction.minor_of(FlexConfig::loose(bc).upper())),
            bc,
        );
        crate::box_constraints::lemma_from_bounds(Size::zero_spec(), bc.upper(), bc);
        assert(c.contains_spec((s[j].measure)(c)));
    }
    lemma_flex_used_is_share(cfg, s, bc, s.len() as int);
    lemma_share_bounds(weights(s), cfg.remaining(s, bc), 0, flex_sum(s));
}

} // verus!
