use vstd::prelude::*;

use crate::alignment::{CrossAxisAlignment, MainAxisAlignment};
use crate::axis::Axis;
use crate::box_constraints::BoxConstraints;
use crate::flex_model::{
    flex_sum,
    is_content,
    cross_offset,
    fill_bc,
    prefix_sum,
    weights,
    lemma_prefix_sum_next,
    lemma_allotment_bounds,
    lemma_minor_upto_bound,
    lemma_size_fits,
    shapes_fit,
    lemma_share_bounds,
    share,
    ChildShape,
    FlexConfig,
    Slot,
};
use crate::arith::lemma_carry_step;
use crate::spacing::{lemma_gaps_sum_to_slack, Spacing};
use vstd::arithmetic::div_mod::{lemma_fundamental_div_mod, lemma_fundamental_div_mod_converse};
use crate::geometry::Point;
use crate::size::{sat, Size};
use crate::widget::{unchanged_outside, DataWrapper, Region, Widget};
use crate::widget_pod::WidgetPod;

verus! {

/// The length of a default spacer in a row.
pub const WIDGET_PADDING_HORIZONTAL: usize = 1;

/// The length of a default spacer in a column.
pub const WIDGET_PADDING_VERTICAL: usize = 1;

/// The flex factor of a child, with an optional alignment that overrides the container's.
#[derive(Debug, Copy, Clone, PartialEq, Eq)]
pub struct FlexParams {
    pub flex: u32,
    pub alignment: Option<CrossAxisAlignment>,
}

impl FlexParams {
    /// Parameters with factor `flex` and the given alignment override. A factor of zero
    /// makes the child a fixed one.
    pub fn new(flex: u32, alignment: Option<CrossAxisAlignment>) -> (r: FlexParams)
        ensures
            r.flex == flex,
            r.alignment == alignment,
    {
        FlexParams { flex, alignment }
    }
}

impl From<u32> for FlexParams {
    /// Factor `flex` with the container's alignment.
    fn from(flex: u32) -> (r: FlexParams) {
        FlexParams { flex, alignment: None }
    }
}

impl vstd::std_specs::convert::FromSpecImpl<u32> for FlexParams {
    open spec fn obeys_from_spec() -> bool {
        true
    }

    open spec fn from_spec(flex: u32) -> FlexParams {
        FlexParams { flex, alignment: None }
    }
}

/// An entry of a flex container.
pub enum Child<T, W> {
    /// A widget that takes the length its own layout asks for.
    Fixed { widget: WidgetPod<T, W>, alignment: Option<CrossAxisAlignment> },
    /// A widget that takes a share of the leftover length in proportion to `flex`.
    Flex { widget: WidgetPod<T, W>, alignment: Option<CrossAxisAlignment>, flex: u32 },
    /// Empty room of a given length, with the length it was last given.
    FixedSpacer(usize, usize),
    /// Empty room that takes a share of the leftover length, with the length it was last given.
    FlexedSpacer(u32, usize),
}

impl<T, W: Widget<T>> Child<T, W> {
    /// What a layout reads of this entry.
    pub open spec fn shape(&self) -> ChildShape {
        match self {
            Child::Fixed { widget, alignment } => ChildShape {
                slot: Slot::Fixed,
                alignment: *alignment,
                measure: widget.measure_fn(),
            },
            Child::Flex { widget, alignment, flex } => ChildShape {
                slot: Slot::Flex(*flex as nat),
                alignment: *alignment,
                measure: widget.measure_fn(),
            },
            Child::FixedSpacer(len, _) => ChildShape {
                slot: Slot::Spacer(*len as nat),
                alignment: None,
                measure: |b: BoxConstraints| Size::zero_spec(),
            },
            Child::FlexedSpacer(flex, _) => ChildShape {
                slot: Slot::FlexSpacer(*flex as nat),
                alignment: None,
                measure: |b: BoxConstraints| Size::zero_spec(),
            },
        }
    }

    /// A widget entry holds a well-formed widget; a flexible entry has a positive factor.
    pub open spec fn wf(&self) -> bool {
        match self {
            Child::Fixed { widget, .. } => widget.inner_spec().inv(),
            Child::Flex { widget, flex, .. } => widget.inner_spec().inv() && *flex > 0,
            Child::FixedSpacer(..) => true,
            Child::FlexedSpacer(flex, _) => *flex > 0,
        }
    }

    /// The size of the widget's last layout; zero for a spacer.
    pub open spec fn recorded_size(&self) -> Size {
        match self {
            Child::Fixed { widget, .. } => widget.size_spec(),
            Child::Flex { widget, .. } => widget.size_spec(),
            _ => Size::zero_spec(),
        }
    }

    /// The position of the widget; the origin for a spacer.
    pub open spec fn recorded_origin(&self) -> Point {
        match self {
            Child::Fixed { widget, .. } => widget.origin_spec(),
            Child::Flex { widget, .. } => widget.origin_spec(),
            _ => Point { x: 0, y: 0 },
        }
    }

    /// The length a spacer was last given; zero for a widget.
    pub open spec fn recorded_length(&self) -> nat {
        match self {
            Child::FixedSpacer(_, c) => *c as nat,
            Child::FlexedSpacer(_, c) => *c as nat,
            _ => 0,
        }
    }

    /// The widget of a widget entry.
    pub open spec fn pod(&self) -> Option<WidgetPod<T, W>> {
        match self {
            Child::Fixed { widget, .. } => Some(*widget),
            Child::Flex { widget, .. } => Some(*widget),
            _ => None,
        }
    }

    /// Both entries are widget entries, and laying out this one's widget under `bc`, which
    /// returned `r`, gives the other's widget.
    pub open spec fn offered_to(&self, bc: BoxConstraints, r: Size, after: &Self) -> bool {
        match (self.pod(), after.pod()) {
            (Some(a), Some(b)) => a.inner_spec().lays_out(bc, &b.inner_spec(), r),
            _ => false,
        }
    }

    /// Both entries are widget entries holding the same widget.
    pub open spec fn same_widget(&self, other: &Self) -> bool {
        match (self.pod(), other.pod()) {
            (Some(a), Some(b)) => a.inner_spec() == b.inner_spec(),
            _ => false,
        }
    }

    /// `after` is this entry once its widget has reacted to `data`; a spacer stays as it is.
    pub open spec fn entry_updated(&self, data: &DataWrapper<T>, after: &Self) -> bool {
        match self {
            Child::Fixed { widget, alignment } => match after {
                Child::Fixed { widget: w2, alignment: a2 } => *a2 == *alignment && widget.updated(
                    data,
                    w2,
                ),
                _ => false,
            },
            Child::Flex { widget, alignment, flex } => match after {
                Child::Flex { widget: w2, alignment: a2, flex: f2 } => *a2 == *alignment && *f2
                    == *flex && widget.updated(data, w2),
                _ => false,
            },
            _ => *after == *self,
        }
    }

    /// `after` is this entry, and `d1` the state, once its widget has handled input with the
    /// state at `d0`; a spacer stays as it is and leaves the state alone.
    pub open spec fn entry_handled(&self, d0: DataWrapper<T>, d1: DataWrapper<T>, after: &Self) -> bool {
        match self {
            Child::Fixed { widget, alignment } => match after {
                Child::Fixed { widget: w2, alignment: a2 } => *a2 == *alignment && widget.handled(
                    d0,
                    d1,
                    w2,
                ),
                _ => false,
            },
            Child::Flex { widget, alignment, flex } => match after {
                Child::Flex { widget: w2, alignment: a2, flex: f2 } => *a2 == *alignment && *f2
                    == *flex && widget.handled(d0, d1, w2),
                _ => false,
            },
            _ => *after == *self && d1 == d0,
        }
    }

    /// `after` is what painting this entry into `region` makes of `before`; a spacer paints
    /// nothing.
    pub open spec fn entry_painted(&self, region: Region, before: Seq<char>, after: Seq<char>) -> bool {
        match self {
            Child::Fixed { widget, .. } => widget.painted(region, before, after),
            Child::Flex { widget, .. } => widget.painted(region, before, after),
            _ => after == before,
        }
    }

    /// The widget of a widget entry.
    pub fn widget(&self) -> (r: Option<&WidgetPod<T, W>>)
        ensures
            r is Some <==> is_content(self.shape().slot),
            match self {
                Child::Fixed { widget, .. } => r == Some(widget),
                Child::Flex { widget, .. } => r == Some(widget),
                _ => true,
            },
    {
        match self {
            Child::Fixed { widget, .. } => Some(widget),
            Child::Flex { widget, .. } => Some(widget),
            _ => None,
        }
    }
}

/// A container that arranges its children in a row or a column, sharing leftover room
/// among flexible children and aligning them across the axis.
pub struct Flex<T, W> {
    direction: Axis,
    cross_alignment: CrossAxisAlignment,
    main_alignment: MainAxisAlignment,
    fill_major_axis: bool,
    children: Vec<Child<T, W>>,
}

impl<T, W: Widget<T>> Flex<T, W> {
    /// The settings that layout reads.
    pub closed spec fn config(&self) -> FlexConfig {
        FlexConfig {
            direction: self.direction,
            cross: self.cross_alignment,
            main: self.main_alignment,
            fill: self.fill_major_axis,
        }
    }

    /// The entries, in order.
    pub closed spec fn children_spec(&self) -> Seq<Child<T, W>> {
        self.children@
    }

    /// What layout reads of the entries.
    pub open spec fn shapes(&self) -> Seq<ChildShape> {
        Seq::new(self.children_spec().len(), |i: int| self.children_spec()[i].shape())
    }

    /// Entry `j` paints buffer `bs[j]` into `bs[j + 1]`.
    pub open spec fn painted_at(&self, region: Region, bs: Seq<Seq<char>>, j: int) -> bool {
        self.children_spec()[j].entry_painted(region, bs[j], bs[j + 1])
    }

    /// Entry `j` handles input with the state going from `ds[j]` to `ds[j + 1]`, becoming
    /// entry `j` of `after`.
    pub open spec fn handled_at(&self, ds: Seq<DataWrapper<T>>, after: &Self, j: int) -> bool {
        self.children_spec()[j].entry_handled(ds[j], ds[j + 1], &after.children_spec()[j])
    }

    /// Every entry is well formed.
    pub open spec fn wf(&self) -> bool {
        forall|i: int| 0 <= i < self.children_spec().len() ==> #[trigger] self.children_spec()[i].wf()
    }

    /// An empty container along `axis`, centering its children across the axis, packing them
    /// at the start, and not filling its axis.
    pub fn for_axis(axis: Axis) -> (r: Self)
        ensures
            r.config() == (FlexConfig {
                direction: axis,
                cross: CrossAxisAlignment::Center,
                main: MainAxisAlignment::Start,
                fill: false,
            }),
            r.children_spec() == Seq::<Child<T, W>>::empty(),
            r.wf(),
    {
        Flex {
            direction: axis,
            children: Vec::new(),
            cross_alignment: CrossAxisAlignment::Center,
            main_alignment: MainAxisAlignment::Start,
            fill_major_axis: false,
        }
    }

    /// An empty row: children laid out from left to right.
    pub fn row() -> (r: Self)
        ensures
            r.config() == (FlexConfig {
                direction: Axis::Horizontal,
                cross: CrossAxisAlignment::Center,
                main: MainAxisAlignment::Start,
                fill: false,
            }),
            r.children_spec() == Seq::<Child<T, W>>::empty(),
            r.wf(),
    {
        Self::for_axis(Axis::Horizontal)
    }

    /// An empty column: children laid out from top to bottom.
    pub fn column() -> (r: Self)
        ensures
            r.config() == (FlexConfig {
                direction: Axis::Vertical,
                cross: CrossAxisAlignment::Center,
                main: MainAxisAlignment::Start,
                fill: false,
            }),
            r.children_spec() == Seq::<Child<T, W>>::empty(),
            r.wf(),
    {
        Self::for_axis(Axis::Vertical)
    }

    /// Builder form of `set_cross_axis_alignment`.
    pub fn cross_axis_alignment(self, alignment: CrossAxisAlignment) -> (r: Self)
        ensures
            r.config() == (FlexConfig { cross: alignment, ..self.config() }),
            r.children_spec() == self.children_spec(),
    {
        let mut container = self;
        container.set_cross_axis_alignment(alignment);
        container
    }

    /// Builder form of `set_main_axis_alignment`.
    pub fn main_axis_alignment(self, alignment: MainAxisAlignment) -> (r: Self)
        ensures
            r.config() == (FlexConfig { main: alignment, ..self.config() }),
            r.children_spec() == self.children_spec(),
    {
        let mut container = self;
        container.set_main_axis_alignment(alignment);
        container
    }

    /// Builder form of `set_must_fill_main_axis`.
    pub fn must_fill_main_axis(self, fill: bool) -> (r: Self)
        ensures
            r.config() == (FlexConfig { fill, ..self.config() }),
            r.children_spec() == self.children_spec(),
    {
        let mut container = self;
        container.set_must_fill_main_axis(fill);
        container
    }

    /// Builder form of `add_child`.
    pub fn with_child(self, child: W) -> (r: Self)
        requires
            child.inv(),
            self.wf(),
        ensures
            r.wf(),
            r.config() == self.config(),
            r.children_spec().len() == self.children_spec().len() + 1,
            forall|j: int|
                0 <= j < self.children_spec().len() ==> #[trigger] r.children_spec()[j]
                    == self.children_spec()[j],
            r.shapes() == self.shapes().push(
                ChildShape { slot: Slot::Fixed, alignment: None, measure: |b: BoxConstraints| child.measure(b) },
            ),
    {
        let mut container = self;
        container.add_child(child);
        container
    }

    /// Builder form of `add_flex_child`.
    pub fn with_flex_child(self, child: W, params: FlexParams) -> (r: Self)
        requires
            child.inv(),
            self.wf(),
        ensures
            r.wf(),
            r.config() == self.config(),
            r.children_spec().len() == self.children_spec().len() + 1,
            forall|j: int|
                0 <= j < self.children_spec().len() ==> #[trigger] r.children_spec()[j]
                    == self.children_spec()[j],
            r.shapes() == self.shapes().push(flex_child_shape(child, params)),
    {
        let mut container = self;
        container.add_flex_child(child, params);
        container
    }

    /// Builder form of `add_default_spacer`.
    pub fn with_default_spacer(self) -> (r: Self)
        requires
            self.wf(),
        ensures
            r.wf(),
            r.config() == self.config(),
            r.children_spec().len() == self.children_spec().len() + 1,
            forall|j: int|
                0 <= j < self.children_spec().len() ==> #[trigger] r.children_spec()[j]
                    == self.children_spec()[j],
            r.shapes() == self.shapes().push(spacer_shape(default_spacer_len(self.config().direction))),
    {
        let mut container = self;
        container.add_default_spacer();
        container
    }

    /// Builder form of `add_spacer`.
    pub fn with_spacer(self, len: usize) -> (r: Self)
        requires
            self.wf(),
        ensures
            r.wf(),
            r.config() == self.config(),
            r.children_spec().len() == self.children_spec().len() + 1,
            forall|j: int|
                0 <= j < self.children_spec().len() ==> #[trigger] r.children_spec()[j]
                    == self.children_spec()[j],
            r.shapes() == self.shapes().push(spacer_shape(len as nat)),
    {
        let mut container = self;
        container.add_spacer(len);
        container
    }

    /// Builder form of `add_flex_spacer`.
    pub fn with_flex_spacer(self, flex: u32) -> (r: Self)
        requires
            self.wf(),
        ensures
            r.wf(),
            r.config() == self.config(),
            r.children_spec().len() == self.children_spec().len() + 1,
            forall|j: int|
                0 <= j < self.children_spec().len() ==> #[trigger] r.children_spec()[j]
                    == self.children_spec()[j],
            r.shapes() == self.shapes().push(flex_spacer_shape(flex)),
    {
        let mut container = self;
        container.add_flex_spacer(flex);
        container
    }

    /// Sets the alignment of children across the axis.
    pub fn set_cross_axis_alignment(&mut self, alignment: CrossAxisAlignment)
        ensures
            final(self).config() == (FlexConfig { cross: alignment, ..old(self).config() }),
            final(self).children_spec() == old(self).children_spec(),
    {
        self.cross_alignment = alignment;
    }

    /// Sets how leftover room along the axis is spread.
    pub fn set_main_axis_alignment(&mut self, alignment: MainAxisAlignment)
        ensures
            final(self).config() == (FlexConfig { main: alignment, ..old(self).config() }),
            final(self).children_spec() == old(self).children_spec(),
    {
        self.main_alignment = alignment;
    }

    /// Sets whether the container takes all the room along its axis.
    pub fn set_must_fill_main_axis(&mut self, fill: bool)
        ensures
            final(self).config() == (FlexConfig { fill, ..old(self).config() }),
            final(self).children_spec() == old(self).children_spec(),
    {
        self.fill_major_axis = fill;
    }

    proof fn lemma_push_shape(old_children: Seq<Child<T, W>>, c: Child<T, W>)
        ensures
            Seq::new(old_children.push(c).len(), |i: int| old_children.push(c)[i].shape())
                =~= Seq::new(old_children.len(), |i: int| old_children[i].shape()).push(c.shape()),
    {
    }

    fn push_child(&mut self, c: Child<T, W>)
        requires
            old(self).wf(),
            c.wf(),
        ensures
            final(self).wf(),
            final(self).config() == old(self).config(),
            final(self).shapes() == old(self).shapes().push(c.shape()),
            final(self).children_spec() == old(self).children_spec().push(c),
    {
        proof {
            Self::lemma_push_shape(self.children@, c);
        }
        let ghost before = self.children@;
        assert(before == old(self).children_spec());
        self.children.push(c);
        assert forall|i: int| 0 <= i < self.children@.len() implies #[trigger] self.children@[i].wf() by {
            if i < before.len() {
                assert(old(self).children_spec()[i].wf());
            }
        }
    }

    /// Adds a widget that takes the length it asks for.
    pub fn add_child(&mut self, child: W)
        requires
            child.inv(),
            old(self).wf(),
        ensures
            final(self).wf(),
            final(self).config() == old(self).config(),
            final(self).children_spec().len() == old(self).children_spec().len() + 1,
            forall|j: int|
                0 <= j < old(self).children_spec().len() ==> #[trigger] final(self).children_spec()[j]
                    == old(self).children_spec()[j],
            final(self).shapes() == old(self).shapes().push(
                ChildShape { slot: Slot::Fixed, alignment: None, measure: |b: BoxConstraints| child.measure(b) },
            ),
    {
        let widget = WidgetPod::new(child);
        let c = Child::Fixed { widget, alignment: None };
        assert(c.shape().measure =~= (|b: BoxConstraints| child.measure(b)));
        self.push_child(c);
    }

    /// Adds a widget with a flex factor and an optional alignment. With a factor of zero
    /// the widget is added as a fixed child instead.
    pub fn add_flex_child(&mut self, child: W, params: FlexParams)
        requires
            child.inv(),
            old(self).wf(),
        ensures
            final(self).wf(),
            final(self).config() == old(self).config(),
            final(self).children_spec().len() == old(self).children_spec().len() + 1,
            forall|j: int|
                0 <= j < old(self).children_spec().len() ==> #[trigger] final(self).children_spec()[j]
                    == old(self).children_spec()[j],
            final(self).shapes() == old(self).shapes().push(flex_child_shape(child, params)),
    {
        let widget = WidgetPod::new(child);
        let c = if params.flex > 0 {
            Child::Flex { widget, alignment: params.alignment, flex: params.flex }
        } else {
            Child::Fixed { widget, alignment: None }
        };
        assert(c.shape().measure =~= (|b: BoxConstraints| child.measure(b)));
        self.push_child(c);
    }

    /// Adds a spacer of the standard length for this container's axis.
    pub fn add_default_spacer(&mut self)
        requires
            old(self).wf(),
        ensures
            final(self).wf(),
            final(self).config() == old(self).config(),
            final(self).children_spec().len() == old(self).children_spec().len() + 1,
            forall|j: int|
                0 <= j < old(self).children_spec().len() ==> #[trigger] final(self).children_spec()[j]
                    == old(self).children_spec()[j],
            final(self).shapes() == old(self).shapes().push(
                spacer_shape(default_spacer_len(old(self).config().direction)),
            ),
    {
        let len = match self.direction {
            Axis::Vertical => WIDGET_PADDING_VERTICAL,
            Axis::Horizontal => WIDGET_PADDING_HORIZONTAL,
        };
        self.add_spacer(len);
    }

    /// Adds empty room of length `len`.
    pub fn add_spacer(&mut self, len: usize)
        requires
            old(self).wf(),
        ensures
            final(self).wf(),
            final(self).config() == old(self).config(),
            final(self).children_spec().len() == old(self).children_spec().len() + 1,
            forall|j: int|
                0 <= j < old(self).children_spec().len() ==> #[trigger] final(self).children_spec()[j]
                    == old(self).children_spec()[j],
            final(self).shapes() == old(self).shapes().push(spacer_shape(len as nat)),
    {
        let c: Child<T, W> = Child::FixedSpacer(len, 0);
        assert(c.shape() == spacer_shape(len as nat));
        self.push_child(c);
    }

    /// Adds empty room that takes a share of the leftover length in proportion to `flex`.
    /// With a factor of zero it is empty room of length zero instead.
    pub fn add_flex_spacer(&mut self, flex: u32)
        requires
            old(self).wf(),
        ensures
            final(self).wf(),
            final(self).config() == old(self).config(),
            final(self).children_spec().len() == old(self).children_spec().len() + 1,
            forall|j: int|
                0 <= j < old(self).children_spec().len() ==> #[trigger] final(self).children_spec()[j]
                    == old(self).children_spec()[j],
            final(self).shapes() == old(self).shapes().push(flex_spacer_shape(flex)),
    {
        let c: Child<T, W> = if flex > 0 {
            Child::FlexedSpacer(flex, 0)
        } else {
            Child::FixedSpacer(0, 0)
        };
        assert(c.shape() == flex_spacer_shape(flex));
        self.push_child(c);
    }

    /// `self` holds the same entries as `before`, as layout reads them, with the same settings.
    pub open spec fn keeps(&self, before: &Self) -> bool {
        &&& self.config() == before.config()
        &&& self.shapes() == before.shapes()
        &&& self.children_spec().len() == before.children_spec().len()
        &&& self.wf()
    }

    /// The first pass: lays out the fixed children and sums what does not depend on the
    /// shared room. Returns the fixed length (saturated), the largest cross-axis size of a
    /// fixed child, the sum of the flex factors, and whether every widget child follows
    /// baseline alignment.
    fn measure_fixed(&mut self, bc: &BoxConstraints) -> (r: (usize, usize, u128, bool))
        requires
            old(self).wf(),
            bc.wf(),
        ensures
            final(self).keeps(old(self)),
            ({
                let cfg = old(self).config();
                let s = old(self).shapes();
                let n = s.len() as int;
                &&& r.0 == sat(cfg.non_flex_upto(s, *bc, n))
                &&& r.1 == cfg.minor_upto(s, *bc, n, false)
                &&& r.2 == flex_sum(s)
                &&& r.2 <= n * 0xffff_ffff
                &&& r.3 == (forall|j: int|
                    0 <= j < n && is_content(#[trigger] s[j].slot) ==> cfg.effective(s, j)
                        == CrossAxisAlignment::Baseline)
                &&& forall|j: int|
                    0 <= j < n ==> {
                        &&& (#[trigger] s[j].slot) is Fixed ==> final(self).children_spec()[j].recorded_size()
                            == cfg.first_size(s, *bc, j)
                        &&& s[j].slot is Fixed ==> old(self).children_spec()[j].offered_to(
                            cfg.offered(s, *bc, j),
                            cfg.first_size(s, *bc, j),
                            &final(self).children_spec()[j],
                        )
                        &&& s[j].slot is Spacer ==> final(self).children_spec()[j].recorded_length()
                            == cfg.fixed_extent(s, *bc, j)
                        &&& !(s[j].slot is Fixed) ==> final(self).children_spec()[j].shape().slot
                            == s[j].slot && (s[j].slot is Flex ==> final(self).children_spec()[j]
                            == old(self).children_spec()[j])
                    }
            }),
    {
        let ghost cfg = self.config();
        let ghost s = self.shapes();
        let ghost start = *self;
        let direction = self.direction;
        let cross = self.cross_alignment;
        let loose = bc.loosen();
        let fixed_bc = direction.constraints(&loose, 0, usize::MAX);
        assert(fixed_bc == cfg.fixed_bc(*bc));
        let n = self.children.len();
        let mut non_flex: usize = 0;
        let mut minor: usize = 0;
        let mut flex_total: u128 = 0;
        let mut all_baseline = true;
        let mut i: usize = 0;
        while i < n
            invariant
                n == self.children@.len(),
                i <= n,
                self.keeps(&start),
                cfg == start.config(),
                s == start.shapes(),
                s.len() == n,
                direction == cfg.direction,
                cross == cfg.cross,
                fixed_bc == cfg.fixed_bc(*bc),
                fixed_bc.wf(),
                non_flex == sat(cfg.non_flex_upto(s, *bc, i as int)),
                minor == cfg.minor_upto(s, *bc, i as int, false),
                flex_total == prefix_sum(weights(s), i as int),
                flex_total <= i * 0xffff_ffff,
                all_baseline == (forall|j: int|
                    0 <= j < i && is_content(#[trigger] s[j].slot) ==> cfg.effective(s, j)
                        == CrossAxisAlignment::Baseline),
                forall|j: int|
                    0 <= j < i ==> {
                        &&& (#[trigger] s[j].slot) is Fixed ==> self.children@[j].recorded_size()
                            == cfg.first_size(s, *bc, j)
                        &&& s[j].slot is Fixed ==> start.children_spec()[j].offered_to(
                            cfg.offered(s, *bc, j),
                            cfg.first_size(s, *bc, j),
                            &self.children@[j],
                        )
                        &&& s[j].slot is Spacer ==> self.children@[j].recorded_length()
                            == cfg.fixed_extent(s, *bc, j)
                        &&& !(s[j].slot is Fixed) ==> self.children@[j].shape().slot == s[j].slot
                            && (s[j].slot is Flex ==> self.children@[j] == start.children_spec()[j])
                    },
                forall|j: int| i <= j < n ==> #[trigger] self.children@[j] == start.children_spec()[j],
            decreases n - i,
        {
            let ghost before = self.children@;
            proof {
                lemma_prefix_sum_next(weights(s), i as int);
                assert(s[i as int] == before[i as int].shape());
                assert(before[i as int].wf());
            }
            let child = &mut self.children[i];
            match child {
                Child::Fixed { widget, alignment } => {
                    let size = widget.lay_out(&fixed_bc);
                    non_flex = non_flex.saturating_add(direction.major(size));
                    let m = direction.minor(size);
                    if m > minor {
                        minor = m;
                    }
                    all_baseline = all_baseline && effective(*alignment, cross)
                        == CrossAxisAlignment::Baseline;
                },
                Child::Flex { alignment, flex, .. } => {
                    flex_total = flex_total + *flex as u128;
                    all_baseline = all_baseline && effective(*alignment, cross)
                        == CrossAxisAlignment::Baseline;
                },
                Child::FixedSpacer(len, calc) => {
                    *calc = *len;
                    non_flex = non_flex.saturating_add(*len);
                },
                Child::FlexedSpacer(flex, _) => {
                    flex_total = flex_total + *flex as u128;
                },
            }
            proof {
                assert(self.children@[i as int].shape() == before[i as int].shape());
                assert(self.children@ == before.update(i as int, self.children@[i as int]));
                assert(self.shapes() =~= s);
                assert forall|j: int| 0 <= j < self.children_spec().len() implies #[trigger] self.children_spec()[j].wf() by {
                    if j != i {
                        assert(before[j] == self.children@[j]);
                    }
                }
                assert(all_baseline == (forall|j: int|
                    0 <= j < i + 1 && is_content(#[trigger] s[j].slot) ==> cfg.effective(s, j)
                        == CrossAxisAlignment::Baseline));
                assert forall|j: int| i + 1 <= j < n implies #[trigger] self.children@[j]
                    == start.children_spec()[j] by {
                    assert(before[j] == self.children@[j]);
                }
                assert forall|j: int| 0 <= j < i + 1 implies {
                    &&& (#[trigger] s[j].slot) is Fixed ==> self.children@[j].recorded_size()
                        == cfg.first_size(s, *bc, j)
                    &&& s[j].slot is Fixed ==> start.children_spec()[j].offered_to(
                        cfg.offered(s, *bc, j),
                        cfg.first_size(s, *bc, j),
                        &self.children@[j],
                    )
                    &&& s[j].slot is Spacer ==> self.children@[j].recorded_length()
                        == cfg.fixed_extent(s, *bc, j)
                    &&& !(s[j].slot is Fixed) ==> self.children@[j].shape().slot == s[j].slot
                        && (s[j].slot is Flex ==> self.children@[j] == start.children_spec()[j])
                } by {
                    if j != i {
                        assert(before[j] == self.children@[j]);
                    }
                }
            }
            i = i + 1;
        }
        (non_flex, minor, flex_total, all_baseline)
    }

    /// The second pass: shares `remaining` out among the flexible entries in proportion to
    /// their factors, carrying each rounding error into the next share, and lays out the flex
    /// children at exactly their share. Returns the length shared out and the largest
    /// cross-axis size of a flex child.
    fn measure_flex(&mut self, bc: &BoxConstraints, remaining: usize, flex_total: u128) -> (r: (
        usize,
        usize,
    ))
        requires
            old(self).wf(),
            bc.wf(),
            remaining == old(self).config().remaining(old(self).shapes(), *bc),
            flex_total == flex_sum(old(self).shapes()),
            flex_total <= old(self).shapes().len() * 0xffff_ffff,
        ensures
            final(self).keeps(old(self)),
            ({
                let cfg = old(self).config();
                let s = old(self).shapes();
                let n = s.len() as int;
                &&& r.0 == cfg.flex_used_upto(s, *bc, n)
                &&& r.1 == cfg.minor_upto(s, *bc, n, true)
                &&& forall|j: int|
                    0 <= j < n ==> {
                        &&& (#[trigger] s[j].slot) is Flex ==> final(self).children_spec()[j].recorded_size()
                            == cfg.first_size(s, *bc, j)
                        &&& s[j].slot is Flex ==> old(self).children_spec()[j].offered_to(
                            cfg.offered(s, *bc, j),
                            cfg.first_size(s, *bc, j),
                            &final(self).children_spec()[j],
                        )
                        &&& s[j].slot is FlexSpacer ==> final(self).children_spec()[j].recorded_length()
                            == cfg.allot(s, *bc, j)
                        &&& !(s[j].slot is Flex) && !(s[j].slot is FlexSpacer)
                            ==> final(self).children_spec()[j] == old(self).children_spec()[j]
                    }
            }),
    {
        let ghost cfg = self.config();
        let ghost s = self.shapes();
        let ghost start = *self;
        let ghost ws = weights(s);
        let direction = self.direction;
        let loose = bc.loosen();
        let n = self.children.len();
        let two_f: u128 = 2 * flex_total;
        let mut rem: u128 = flex_total;
        let mut used: usize = 0;
        let mut minor: usize = 0;
        proof {
            if flex_total > 0 {
                lemma_fundamental_div_mod_converse(flex_total as int, two_f as int, 0, flex_total as int);
            }
            lemma_share_bounds(ws, remaining as nat, 0, 0);
            assert(2 * prefix_sum(ws, 0) * remaining == 0) by (nonlinear_arith)
                requires
                    prefix_sum(ws, 0) == 0,
            ;
        }
        let mut i: usize = 0;
        while i < n
            invariant
                n == self.children@.len(),
                i <= n,
                self.keeps(&start),
                cfg == start.config(),
                s == start.shapes(),
                ws == weights(s),
                s.len() == n,
                direction == cfg.direction,
                loose == FlexConfig::loose(*bc),
                loose.wf(),
                remaining == cfg.remaining(s, *bc),
                flex_total == prefix_sum(ws, n as int),
                flex_total <= n * 0xffff_ffff,
                two_f == 2 * flex_total,
                flex_total > 0 ==> rem == (2 * prefix_sum(ws, i as int) * remaining + flex_total)
                    % (two_f as int),
                used == cfg.flex_used_upto(s, *bc, i as int),
                used == share(ws, remaining as nat, prefix_sum(ws, i as int)),
                minor == cfg.minor_upto(s, *bc, i as int, true),
                forall|j: int|
                    0 <= j < i ==> {
                        &&& (#[trigger] s[j].slot) is Flex ==> self.children@[j].recorded_size()
                            == cfg.first_size(s, *bc, j)
                        &&& s[j].slot is Flex ==> start.children_spec()[j].offered_to(
                            cfg.offered(s, *bc, j),
                            cfg.first_size(s, *bc, j),
                            &self.children@[j],
                        )
                        &&& s[j].slot is FlexSpacer ==> self.children@[j].recorded_length()
                            == cfg.allot(s, *bc, j)
                    },
                forall|j: int|
                    0 <= j < n && (i <= j || !(#[trigger] s[j].slot is Flex) && !(s[j].slot is FlexSpacer))
                        ==> self.children@[j] == start.children_spec()[j],
            decreases n - i,
        {
            let ghost before = self.children@;
            proof {
                lemma_prefix_sum_next(ws, i as int);
                assert(s[i as int] == before[i as int].shape());
                assert(before[i as int].wf());
                lemma_share_bounds(ws, remaining as nat, prefix_sum(ws, i as int), prefix_sum(ws, i + 1));
            }
            let child = &mut self.children[i];
            let ghost flexible = match child {
                Child::Flex { .. } => true,
                Child::FlexedSpacer(..) => true,
                _ => false,
            };
            let f: u128 = match child {
                Child::Flex { flex, .. } => *flex as u128,
                Child::FlexedSpacer(flex, _) => *flex as u128,
                _ => 0,
            };
            assert(f == ws[i as int]);
            let mut share_now: usize = 0;
            if f > 0 {
                let ghost r = remaining as int;
                let ghost big_f = flex_total as int;
                let ghost p = prefix_sum(ws, i as int) as int;
                let ghost base = 2 * p * r + big_f;
                proof {
                    assert(f <= 0xffff_ffff);
                    assert(2 * f * remaining <= 2 * 0xffff_ffff * 0xffff_ffff_ffff_ffff) by (nonlinear_arith)
                        requires
                            f <= 0xffff_ffff,
                            remaining <= 0xffff_ffff_ffff_ffff,
                    ;
                    assert(flex_total <= 0xffff_ffff_ffff_ffff * 0xffff_ffff) by (nonlinear_arith)
                        requires
                            flex_total <= n * 0xffff_ffff,
                            n <= 0xffff_ffff_ffff_ffff,
                    ;
                    assert(base >= 0) by (nonlinear_arith)
                        requires
                            base == 2 * p * r + big_f,
                            p >= 0,
                            r >= 0,
                            big_f >= 0,
                    ;
                    lemma_fundamental_div_mod(base, 2 * big_f);
                    vstd::arithmetic::div_mod::lemma_mod_pos_bound(base, 2 * big_f);
                }
                let num = rem + 2 * f * (remaining as u128);
                let a = num / two_f;
                proof {
                    let q = base / (2 * big_f);
                    assert(base == q * (2 * big_f) + rem) by (nonlinear_arith)
                        requires
                            base == (2 * big_f) * q + (base % (2 * big_f)),
                            rem == base % (2 * big_f),
                    ;
                    lemma_carry_step(base, 2 * f * r, 2 * big_f, q, rem as int);
                    assert(base + 2 * f * r == 2 * prefix_sum(ws, i + 1) * r + big_f) by (nonlinear_arith)
                        requires
                            base == 2 * p * r + big_f,
                            prefix_sum(ws, i + 1) == p + f,
                    ;
                    assert(share(ws, remaining as nat, prefix_sum(ws, i + 1)) == q + a);
                    lemma_allotment_bounds(ws, remaining as nat, i as int);
                    assert(cfg.allot(s, *bc, i as int) == a);
                }
                rem = num % two_f;
                share_now = a as usize;
            }
            assert(used + share_now == share(ws, remaining as nat, prefix_sum(ws, i + 1)));
            match child {
                Child::Flex { widget, .. } => {
                    let flex_bc = direction.constraints(&loose, share_now, share_now);
                    assert(flex_bc == cfg.flex_bc(*bc, cfg.allot(s, *bc, i as int)));
                    let size = widget.lay_out(&flex_bc);
                    assert(direction.major_of(size) == share_now);
                    used = used + direction.major(size);
                    let m = direction.minor(size);
                    if m > minor {
                        minor = m;
                    }
                },
                Child::FlexedSpacer(_, calc) => {
                    *calc = share_now;
                    used = used + share_now;
                },
                _ => {},
            }
            proof {
                assert(self.children@[i as int].shape() == before[i as int].shape());
                assert(self.children@ == before.update(i as int, self.children@[i as int]));
                assert(self.shapes() =~= s);
                assert forall|j: int| 0 <= j < self.children_spec().len() implies #[trigger] self.children_spec()[j].wf() by {
                    if j != i {
                        assert(before[j] == self.children@[j]);
                    }
                }
                if !flexible {
                    assert(prefix_sum(ws, i + 1) == prefix_sum(ws, i as int));
                }
            }
            i = i + 1;
        }
        (used, minor)
    }

    /// The last pass: walks the entries in order, placing each widget child after the gap
    /// that the main-axis alignment puts before it and at the offset that its cross-axis
    /// alignment gives it; a filling child is laid out again to the container's cross-axis
    /// size. Returns where the last entry and its trailing gap end.
    fn place(
        &mut self,
        bc: &BoxConstraints,
        extra: usize,
        minor_dim: usize,
        minor_total: usize,
        minor_max: usize,
    ) -> (r: usize)
        requires
            old(self).wf(),
            bc.wf(),
            ({
                let cfg = old(self).config();
                let s = old(self).shapes();
                &&& extra == cfg.extra(s, *bc)
                &&& minor_dim == cfg.minor_dim(s, *bc)
                &&& minor_total == cfg.minor_total(s, *bc)
                &&& minor_max == cfg.minor_max(s, *bc)
                &&& forall|j: int|
                    0 <= j < s.len() ==> {
                        &&& is_content(#[trigger] s[j].slot) ==> old(self).children_spec()[j].recorded_size()
                            == cfg.first_size(s, *bc, j)
                        &&& !is_content(s[j].slot) ==> old(self).children_spec()[j].recorded_length()
                            == cfg.extent(s, *bc, j)
                    }
            }),
        ensures
            final(self).keeps(old(self)),
            ({
                let cfg = old(self).config();
                let s = old(self).shapes();
                &&& r == cfg.position(s, *bc, s.len() as int)
                &&& forall|j: int|
                    0 <= j < s.len() && is_content(#[trigger] s[j].slot) ==> {
                        &&& final(self).children_spec()[j].recorded_origin() == cfg.origin(s, *bc, j)
                        &&& final(self).children_spec()[j].recorded_size() == cfg.final_size(s, *bc, j)
                        &&& cfg.effective(s, j) != CrossAxisAlignment::Fill ==> old(
                            self,
                        ).children_spec()[j].same_widget(&final(self).children_spec()[j])
                        &&& cfg.effective(s, j) == CrossAxisAlignment::Fill ==> old(
                            self,
                        ).children_spec()[j].offered_to(
                            fill_bc(cfg.direction, cfg.first_size(s, *bc, j), cfg.minor_dim(s, *bc)),
                            cfg.final_size(s, *bc, j),
                            &final(self).children_spec()[j],
                        )
                    }
            }),
    {
        let ghost cfg = self.config();
        let ghost s = self.shapes();
        let ghost start = *self;
        let direction = self.direction;
        let cross = self.cross_alignment;
        let n = self.children.len();
        let mut spacing = Spacing::new(self.main_alignment, extra, n);
        proof {
            lemma_gaps_sum_to_slack(cfg.main, extra as nat, n as nat);
        }
        let first = spacing.next();
        let mut cursor: usize = match first {
            Some(g) => g,
            None => 0,
        };
        proof {
            crate::flex_model::lemma_position_first(cfg, s, *bc);
        }
        let mut i: usize = 0;
        while i < n
            invariant
                n == self.children@.len(),
                i <= n,
                self.keeps(&start),
                cfg == start.config(),
                s == start.shapes(),
                s.len() == n,
                direction == cfg.direction,
                cross == cfg.cross,
                extra == cfg.extra(s, *bc),
                minor_dim == cfg.minor_dim(s, *bc),
                minor_total == cfg.minor_total(s, *bc),
                minor_max == cfg.minor_max(s, *bc),
                spacing.wf(),
                spacing.alignment_spec() == cfg.main,
                spacing.slack_spec() == extra,
                spacing.children_spec() == n,
                spacing.yielded() == i + 1,
                forall|k: int| 0 <= k <= n ==> 0 <= #[trigger] crate::spacing::gap_spec(cfg.main, extra as nat, n as nat, k) <= extra,
                cursor == cfg.position(s, *bc, i as int),
                forall|j: int|
                    0 <= j < i && is_content(#[trigger] s[j].slot) ==> {
                        &&& self.children@[j].recorded_origin() == cfg.origin(s, *bc, j)
                        &&& self.children@[j].recorded_size() == cfg.final_size(s, *bc, j)
                        &&& cfg.effective(s, j) != CrossAxisAlignment::Fill
                            ==> start.children_spec()[j].same_widget(&self.children@[j])
                        &&& cfg.effective(s, j) == CrossAxisAlignment::Fill
                            ==> start.children_spec()[j].offered_to(
                            fill_bc(cfg.direction, cfg.first_size(s, *bc, j), cfg.minor_dim(s, *bc)),
                            cfg.final_size(s, *bc, j),
                            &self.children@[j],
                        )
                    },
                forall|j: int| i <= j < n ==> #[trigger] self.children@[j] == start.children_spec()[j],
                forall|j: int|
                    0 <= j < n ==> {
                        &&& is_content(#[trigger] s[j].slot) ==> start.children_spec()[j].recorded_size()
                            == cfg.first_size(s, *bc, j)
                        &&& !is_content(s[j].slot) ==> start.children_spec()[j].recorded_length()
                            == cfg.extent(s, *bc, j)
                    },
            decreases n - i,
        {
            let ghost before = self.children@;
            proof {
                assert(s[i as int] == before[i as int].shape());
                assert(before[i as int].wf());
                if s[i as int].slot is Fixed {
                    lemma_minor_upto_bound(cfg, s, *bc, n as int, i as int, false);
                }
                if s[i as int].slot is Flex {
                    lemma_minor_upto_bound(cfg, s, *bc, n as int, i as int, true);
                }
            }
            let ext = place_entry(
                &mut self.children[i],
                direction,
                cross,
                cursor,
                minor_dim,
                minor_total,
                minor_max,
            );
            let next = spacing.next();
            let g: usize = match next {
                Some(g) => g,
                None => 0,
            };
            proof {
                assert(self.children@[i as int].shape() == before[i as int].shape());
                assert(self.children@ == before.update(i as int, self.children@[i as int]));
                assert(self.shapes() =~= s);
                assert forall|j: int| 0 <= j < self.children_spec().len() implies #[trigger] self.children_spec()[j].wf() by {
                    if j != i {
                        assert(before[j] == self.children@[j]);
                    }
                }
                assert(ext == cfg.extent(s, *bc, i as int));
                crate::flex_model::lemma_position_step(cfg, s, *bc, i as int);
                assert forall|j: int|
                    0 <= j < i + 1 && is_content(#[trigger] s[j].slot) implies {
                        &&& self.children@[j].recorded_origin() == cfg.origin(s, *bc, j)
                        &&& self.children@[j].recorded_size() == cfg.final_size(s, *bc, j)
                        &&& cfg.effective(s, j) != CrossAxisAlignment::Fill
                            ==> start.children_spec()[j].same_widget(&self.children@[j])
                        &&& cfg.effective(s, j) == CrossAxisAlignment::Fill
                            ==> start.children_spec()[j].offered_to(
                            fill_bc(cfg.direction, cfg.first_size(s, *bc, j), cfg.minor_dim(s, *bc)),
                            cfg.final_size(s, *bc, j),
                            &self.children@[j],
                        )
                    } by {
                    if j != i {
                        assert(before[j] == self.children@[j]);
                    }
                }
                assert forall|j: int| i + 1 <= j < n implies #[trigger] self.children@[j]
                    == start.children_spec()[j] by {
                    assert(before[j] == self.children@[j]);
                }
            }
            cursor = cursor.saturating_add(ext).saturating_add(g);
            i = i + 1;
        }
        cursor
    }

    /// Every widget child stands where, and has the size that, a layout under `bc` gives it.
    pub open spec fn placed(&self, bc: BoxConstraints) -> bool {
        forall|j: int|
            0 <= j < self.shapes().len() && is_content(#[trigger] self.shapes()[j].slot) ==> {
                &&& self.children_spec()[j].recorded_origin() == self.config().origin(self.shapes(), bc, j)
                &&& self.children_spec()[j].recorded_size() == self.config().final_size(self.shapes(), bc, j)
            }
    }

    /// Each widget child of `before` was laid out under the constraints the model offers it,
    /// giving the one in `self`; a filling child was then laid out again to the container's
    /// cross-axis size.
    pub open spec fn offered_from(&self, before: &Self, bc: BoxConstraints) -> bool {
        let cfg = before.config();
        let s = before.shapes();
        forall|j: int|
            0 <= j < s.len() && is_content(#[trigger] s[j].slot) ==> if cfg.effective(s, j)
                == CrossAxisAlignment::Fill {
                exists|mid: Child<T, W>|
                    {
                        &&& #[trigger] before.children_spec()[j].offered_to(
                            cfg.offered(s, bc, j),
                            cfg.first_size(s, bc, j),
                            &mid,
                        )
                        &&& mid.offered_to(
                            fill_bc(cfg.direction, cfg.first_size(s, bc, j), cfg.minor_dim(s, bc)),
                            cfg.final_size(s, bc, j),
                            &self.children_spec()[j],
                        )
                    }
            } else {
                before.children_spec()[j].offered_to(
                    cfg.offered(s, bc, j),
                    cfg.first_size(s, bc, j),
                    &self.children_spec()[j],
                )
            }
    }

    /// `after` is `before` laid out under `bc`, which returned `r`: the entries and settings
    /// that layout reads are kept, `r` is the size the model gives, within `bc`, every widget
    /// child was offered the constraints the model gives, and every widget child is placed
    /// as the model says.
    pub open spec fn laid_out(before: &Self, after: &Self, bc: BoxConstraints, r: Size) -> bool {
        &&& after.keeps(before)
        &&& r == before.config().size(before.shapes(), bc)
        &&& bc.contains_spec(r)
        &&& after.offered_from(before, bc)
        &&& after.placed(bc)
    }

    /// Lays the container out under `bc`: measures the fixed children, shares the leftover
    /// room among the flexible ones, spreads what is still left as gaps, places every widget
    /// child, and returns the container's own size.
    pub fn arrange(&mut self, bc: &BoxConstraints) -> (r: Size)
        requires
            old(self).wf(),
            bc.wf(),
        ensures
            Self::laid_out(old(self), final(self), *bc, r),
    {
        let ghost cfg = self.config();
        let ghost s = self.shapes();
        let ghost start = *self;
        proof {
            lemma_size_fits(cfg, s, *bc);
        }
        if self.children.len() == 0 {
            return bc.constrain(Size::zero());
        }
        let direction = self.direction;
        let fill = self.fill_major_axis;
        let (non_flex, fixed_minor, flex_total, all_baseline) = self.measure_fixed(bc);
        let ghost after_fixed = *self;
        let total = direction.major(bc.max());
        let remaining: usize = if total == usize::MAX && flex_total > 0 {
            0
        } else {
            total.saturating_sub(non_flex)
        };
        let (used, flex_minor) = self.measure_flex(bc, remaining, flex_total);
        let extra: usize = if fill {
            remaining.saturating_sub(used)
        } else {
            direction.major(bc.min()).saturating_sub(non_flex.saturating_add(used))
        };
        let minor_max = if fixed_minor >= flex_minor {
            fixed_minor
        } else {
            flex_minor
        };
        let lower_minor = direction.minor(bc.min());
        let minor_total = if lower_minor >= minor_max {
            lower_minor
        } else {
            minor_max
        };
        let honored = self.cross_alignment == CrossAxisAlignment::Baseline && all_baseline;
        let minor_dim = if direction == Axis::Horizontal && honored {
            minor_max
        } else {
            minor_total
        };
        proof {
            assert forall|j: int| 0 <= j < s.len() implies {
                &&& is_content(#[trigger] s[j].slot) ==> self.children_spec()[j].recorded_size()
                    == cfg.first_size(s, *bc, j)
                &&& !is_content(s[j].slot) ==> self.children_spec()[j].recorded_length()
                    == cfg.extent(s, *bc, j)
            } by {
                if !(s[j].slot is Flex) && !(s[j].slot is FlexSpacer) {
                    assert(self.children_spec()[j] == after_fixed.children_spec()[j]);
                }
            }
        }
        let ghost after_flex = *self;
        let end = self.place(bc, extra, minor_dim, minor_total, minor_max);
        proof {
            assert forall|j: int|
                0 <= j < s.len() && is_content(#[trigger] s[j].slot) implies start.children_spec()[j].offered_to(
                cfg.offered(s, *bc, j),
                cfg.first_size(s, *bc, j),
                &after_flex.children_spec()[j],
            ) by {
                if s[j].slot is Fixed {
                    assert(after_flex.children_spec()[j] == after_fixed.children_spec()[j]);
                } else {
                    assert(after_fixed.children_spec()[j] == start.children_spec()[j]);
                }
            }
            assert forall|j: int|
                0 <= j < s.len() && is_content(#[trigger] s[j].slot) implies if cfg.effective(s, j)
                == CrossAxisAlignment::Fill {
                exists|mid: Child<T, W>|
                    {
                        &&& #[trigger] start.children_spec()[j].offered_to(
                            cfg.offered(s, *bc, j),
                            cfg.first_size(s, *bc, j),
                            &mid,
                        )
                        &&& mid.offered_to(
                            fill_bc(cfg.direction, cfg.first_size(s, *bc, j), cfg.minor_dim(s, *bc)),
                            cfg.final_size(s, *bc, j),
                            &self.children_spec()[j],
                        )
                    }
            } else {
                start.children_spec()[j].offered_to(
                    cfg.offered(s, *bc, j),
                    cfg.first_size(s, *bc, j),
                    &self.children_spec()[j],
                )
            } by {
                let mid = after_flex.children_spec()[j];
                assert(start.children_spec()[j].offered_to(
                    cfg.offered(s, *bc, j),
                    cfg.first_size(s, *bc, j),
                    &mid,
                ));
            }
        }
        let major = if flex_total > 0 && total != usize::MAX {
            total
        } else {
            end
        };
        let size = Size::from(direction.pack(major, minor_dim));
        if fill {
            bc.constrain(size)
        } else {
            direction.constraints(bc, 0, total).constrain(size)
        }
    }

    /// Every widget of a well-formed container settles within the constraints it is offered.
    pub proof fn lemma_shapes_fit(&self)
        requires
            self.wf(),
        ensures
            shapes_fit(self.shapes()),
    {
        assert forall|j: int, c: BoxConstraints|
            0 <= j < self.shapes().len() && is_content(self.shapes()[j].slot) && c.wf()
                implies c.contains_spec(#[trigger] (self.shapes()[j].measure)(c)) by {
            assert(self.children_spec()[j].wf());
            assert(self.shapes()[j] == self.children_spec()[j].shape());
            match self.children_spec()[j] {
                Child::Fixed { widget, .. } => widget.inner_spec().lemma_measure_fits(c),
                Child::Flex { widget, .. } => widget.inner_spec().lemma_measure_fits(c),
                _ => {},
            }
        }
    }

    /// Whether a layout under `bc` would have flexible entries share an unbounded length;
    /// they are then given nothing, and a host may want to report it.
    pub fn has_unbounded_flex(&self, bc: &BoxConstraints) -> (r: bool)
        ensures
            r == (flex_sum(self.shapes()) > 0 && !self.config().bounded(*bc)),
    {
        let n = self.children.len();
        let mut any = false;
        let mut i: usize = 0;
        while i < n
            invariant
                n == self.children@.len(),
                i <= n,
                any == (prefix_sum(weights(self.shapes()), i as int) > 0),
            decreases n - i,
        {
            proof {
                lemma_prefix_sum_next(weights(self.shapes()), i as int);
                assert(self.shapes()[i as int] == self.children@[i as int].shape());
            }
            match &self.children[i] {
                Child::Flex { flex, .. } => {
                    any = any || *flex > 0;
                },
                Child::FlexedSpacer(flex, _) => {
                    any = any || *flex > 0;
                },
                _ => {},
            }
            i = i + 1;
        }
        any && self.direction.major(bc.max()) == usize::MAX
    }

    /// The number of entries.
    pub fn len(&self) -> (r: usize)
        ensures
            r == self.children_spec().len(),
    {
        self.children.len()
    }

    /// Entry `i`, if there is one.
    pub fn child(&self, i: usize) -> (r: Option<&Child<T, W>>)
        ensures
            i < self.children_spec().len() ==> r == Some(&self.children_spec()[i as int]),
            i >= self.children_spec().len() ==> r is None,
    {
        if i < self.children.len() {
            Some(&self.children[i])
        } else {
            None
        }
    }
}

/// Places entry `child` at `cursor` along the axis; see `place_widget`. Returns its length
/// along the axis: that of its widget's last layout, or the length a spacer was given.
fn place_entry<T, W: Widget<T>>(
    child: &mut Child<T, W>,
    direction: Axis,
    cross: CrossAxisAlignment,
    cursor: usize,
    minor_dim: usize,
    minor_total: usize,
    minor_max: usize,
) -> (ext: usize)
    requires
        old(child).wf(),
        minor_max <= minor_total,
        minor_dim == minor_max || minor_dim == minor_total,
        is_content(old(child).shape().slot) ==> direction.minor_of(old(child).recorded_size())
            <= minor_max,
    ensures
        final(child).wf(),
        final(child).shape() == old(child).shape(),
        !is_content(old(child).shape().slot) ==> ext == old(child).recorded_length(),
        is_content(old(child).shape().slot) ==> {
            let al = match old(child).shape().alignment {
                Some(a) => a,
                None => cross,
            };
            let first = old(child).recorded_size();
            let offset = cross_offset(
                direction,
                al,
                direction.minor_of(first) as nat,
                minor_dim as nat,
                minor_total as nat,
                minor_max as nat,
            );
            let p = direction.pack_spec(cursor, offset as usize);
            &&& ext == direction.major_of(first)
            &&& final(child).recorded_origin() == (Point { x: p.0, y: p.1 })
            &&& al != CrossAxisAlignment::Fill ==> old(child).same_widget(final(child))
            &&& al == CrossAxisAlignment::Fill ==> old(child).offered_to(
                fill_bc(direction, first, minor_dim as nat),
                final(child).recorded_size(),
                final(child),
            )
            &&& final(child).recorded_size() == if al == CrossAxisAlignment::Fill {
                (old(child).shape().measure)(fill_bc(direction, first, minor_dim as nat))
            } else {
                first
            }
        },
{
    match child {
        Child::Fixed { widget, alignment } => place_widget(
            widget,
            *alignment,
            direction,
            cross,
            cursor,
            minor_dim,
            minor_total,
            minor_max,
        ),
        Child::Flex { widget, alignment, .. } => place_widget(
            widget,
            *alignment,
            direction,
            cross,
            cursor,
            minor_dim,
            minor_total,
            minor_max,
        ),
        Child::FixedSpacer(_, calc) => *calc,
        Child::FlexedSpacer(_, calc) => *calc,
    }
}

/// Places one widget child at `cursor` along the axis and at the offset its alignment
/// gives it across; a filling child is laid out again to `minor_dim` across. Returns the
/// child's length along the axis.
fn place_widget<T, W: Widget<T>>(
    widget: &mut WidgetPod<T, W>,
    alignment: Option<CrossAxisAlignment>,
    direction: Axis,
    cross: CrossAxisAlignment,
    cursor: usize,
    minor_dim: usize,
    minor_total: usize,
    minor_max: usize,
) -> (ext: usize)
    requires
        old(widget).inner_spec().inv(),
        direction.minor_of(old(widget).size_spec()) <= minor_max <= minor_total,
        minor_dim == minor_max || minor_dim == minor_total,
        minor_max <= minor_dim || direction.minor_of(old(widget).size_spec()) <= minor_dim,
    ensures
        final(widget).inner_spec().inv(),
        final(widget).measure_fn() == old(widget).measure_fn(),
        ext == direction.major_of(old(widget).size_spec()),
        ({
            let al = match alignment {
                Some(a) => a,
                None => cross,
            };
            let first = old(widget).size_spec();
            let offset = cross_offset(
                direction,
                al,
                direction.minor_of(first) as nat,
                minor_dim as nat,
                minor_total as nat,
                minor_max as nat,
            );
            let p = direction.pack_spec(cursor, offset as usize);
            &&& final(widget).origin_spec() == (Point { x: p.0, y: p.1 })
            &&& al != CrossAxisAlignment::Fill ==> final(widget).inner_spec() == old(widget).inner_spec()
            &&& al == CrossAxisAlignment::Fill ==> old(widget).inner_spec().lays_out(
                fill_bc(direction, first, minor_dim as nat),
                &final(widget).inner_spec(),
                final(widget).size_spec(),
            )
            &&& final(widget).size_spec() == if al == CrossAxisAlignment::Fill {
                old(widget).inner_spec().measure(fill_bc(direction, first, minor_dim as nat))
            } else {
                first
            }
        }),
{
    let size = widget.layout_size();
    let cm = direction.minor(size);
    let al = effective(alignment, cross);
    let offset: usize = if al == CrossAxisAlignment::Baseline && direction == Axis::Horizontal {
        (minor_total - minor_dim) + (minor_max - cm)
    } else if al == CrossAxisAlignment::Fill {
        let fill_size = Size::from(direction.pack(direction.major(size), minor_dim));
        let tight = BoxConstraints::tight(fill_size);
        widget.lay_out(&tight);
        0
    } else {
        al.align(minor_dim - cm)
    };
    widget.set_origin(Point::from(direction.pack(cursor, offset)));
    direction.major(size)
}

/// The alignment a child follows: its own, else the container's.
fn effective(own: Option<CrossAxisAlignment>, default: CrossAxisAlignment) -> (r: CrossAxisAlignment)
    ensures
        r == match own {
            Some(a) => a,
            None => default,
        },
{
    match own {
        Some(a) => a,
        None => default,
    }
}

/// The standard spacer length along `axis`.
pub open spec fn default_spacer_len(axis: Axis) -> nat {
    match axis {
        Axis::Vertical => WIDGET_PADDING_VERTICAL as nat,
        Axis::Horizontal => WIDGET_PADDING_HORIZONTAL as nat,
    }
}

/// The entry that a fixed spacer of `len` is.
pub open spec fn spacer_shape(len: nat) -> ChildShape {
    ChildShape { slot: Slot::Spacer(len), alignment: None, measure: |b: BoxConstraints| Size::zero_spec() }
}

/// The entry that `add_flex_spacer(flex)` adds.
pub open spec fn flex_spacer_shape(flex: u32) -> ChildShape {
    if flex > 0 {
        ChildShape {
            slot: Slot::FlexSpacer(flex as nat),
            alignment: None,
            measure: |b: BoxConstraints| Size::zero_spec(),
        }
    } else {
        spacer_shape(0)
    }
}

/// The entry that `add_flex_child(child, params)` adds.
pub open spec fn flex_child_shape<T, W: Widget<T>>(child: W, params: FlexParams) -> ChildShape {
    if params.flex > 0 {
        ChildShape {
            slot: Slot::Flex(params.flex as nat),
            alignment: params.alignment,
            measure: |b: BoxConstraints| child.measure(b),
        }
    } else {
        ChildShape { slot: Slot::Fixed, alignment: None, measure: |b: BoxConstraints| child.measure(b) }
    }
}

impl<T, W: Widget<T>> Widget<T> for Flex<T, W> {
    open spec fn inv(&self) -> bool {
        self.wf()
    }

    open spec fn measure(&self, bc: BoxConstraints) -> Size {
        self.config().size(self.shapes(), bc)
    }

    /// The settings and the entries' kinds, factors and alignments are kept, and each widget
    /// child has reacted to `data`.
    open spec fn updated(&self, data: &DataWrapper<T>, after: &Self) -> bool {
        &&& after.config() == self.config()
        &&& after.children_spec().len() == self.children_spec().len()
        &&& forall|j: int|
            0 <= j < self.children_spec().len() ==> #[trigger] self.children_spec()[j].entry_updated(
                data,
                &after.children_spec()[j],
            )
    }

    open spec fn lays_out(&self, bc: BoxConstraints, after: &Self, r: Size) -> bool {
        Flex::laid_out(self, after, bc, r)
    }

    /// The entries paint in order, each into `region` (a widget child into its own part of
    /// it), each starting from what the one before left.
    open spec fn painted(&self, region: Region, before: Seq<char>, after: Seq<char>) -> bool {
        exists|bs: Seq<Seq<char>>|
            {
                &&& bs.len() == self.children_spec().len() + 1
                &&& bs[0] == before
                &&& bs[self.children_spec().len() as int] == after
                &&& forall|j: int|
                    0 <= j < self.children_spec().len() ==> #[trigger] self.painted_at(region, bs, j)
            }
    }

    /// The settings and the entries' kinds, factors and alignments are kept, and the entries
    /// handle the input in order, each starting from the state the one before left.
    open spec fn handled(
        &self,
        data_before: DataWrapper<T>,
        data_after: DataWrapper<T>,
        after: &Self,
    ) -> bool {
        &&& after.config() == self.config()
        &&& after.children_spec().len() == self.children_spec().len()
        &&& exists|ds: Seq<DataWrapper<T>>|
            {
                &&& ds.len() == self.children_spec().len() + 1
                &&& ds[0] == data_before
                &&& ds[self.children_spec().len() as int] == data_after
                &&& forall|j: int|
                    0 <= j < self.children_spec().len() ==> #[trigger] self.handled_at(ds, after, j)
            }
    }

    proof fn lemma_measure_fits(&self, bc: BoxConstraints) {
        lemma_size_fits(self.config(), self.shapes(), bc);
    }

    fn update(&mut self, data: &DataWrapper<T>) {
        let ghost start = *self;
        let n = self.children.len();
        let mut i: usize = 0;
        while i < n
            invariant
                n == self.children@.len(),
                n == start.children_spec().len(),
                i <= n,
                self.wf(),
                self.config() == start.config(),
                forall|j: int|
                    0 <= j < i ==> #[trigger] start.children_spec()[j].entry_updated(
                        data,
                        &self.children_spec()[j],
                    ),
                forall|j: int| i <= j < n ==> #[trigger] self.children_spec()[j] == start.children_spec()[j],
            decreases n - i,
        {
            let ghost before = self.children_spec();
            proof {
                assert(before[i as int].wf());
            }
            let child = &mut self.children[i];
            match child {
                Child::Fixed { widget, .. } => widget.update(data),
                Child::Flex { widget, .. } => widget.update(data),
                _ => {},
            }
            proof {
                assert forall|j: int| 0 <= j < self.children_spec().len() implies #[trigger] self.children_spec()[j].wf() by {
                    if j != i {
                        assert(before[j] == self.children_spec()[j]);
                    }
                }
                assert forall|j: int| 0 <= j < i + 1 implies #[trigger] start.children_spec()[j].entry_updated(
                    data,
                    &self.children_spec()[j],
                ) by {
                    if j != i {
                        assert(before[j] == self.children_spec()[j]);
                    }
                }
                assert forall|j: int| i + 1 <= j < n implies #[trigger] self.children_spec()[j] == start.children_spec()[j] by {
                    assert(before[j] == self.children_spec()[j]);
                }
            }
            i = i + 1;
        }
    }

    fn layout(&mut self, bc: &BoxConstraints) -> (r: Size) {
        self.arrange(bc)
    }

    fn paint(&self, buf: &mut Vec<char>, region: Region) {
        let n = self.children.len();
        let ghost mut bs: Seq<Seq<char>> = seq![buf@];
        let mut i: usize = 0;
        while i < n
            invariant
                n == self.children@.len(),
                i <= n,
                self.wf(),
                unchanged_outside(region, old(buf)@, buf@),
                bs.len() == i + 1,
                bs[0] == old(buf)@,
                bs[i as int] == buf@,
                forall|j: int| 0 <= j < i ==> #[trigger] self.painted_at(region, bs, j),
            decreases n - i,
        {
            proof {
                assert(self.children_spec()[i as int].wf());
            }
            let ghost prev = bs;
            match &self.children[i] {
                Child::Fixed { widget, .. } => widget.paint(buf, region),
                Child::Flex { widget, .. } => widget.paint(buf, region),
                _ => {},
            }
            proof {
                bs = bs.push(buf@);
                assert forall|j: int| 0 <= j < i + 1 implies #[trigger] self.painted_at(region, bs, j) by {
                    assert(bs[j] == prev.push(buf@)[j]);
                    if j < i {
                        assert(self.painted_at(region, prev, j));
                    }
                }
            }
            i = i + 1;
        }
        assert(self.painted_at(region, bs, 0) || n == 0);
    }

    fn event(&mut self, data: &mut DataWrapper<T>) {
        let ghost start = *self;
        let ghost mut ds: Seq<DataWrapper<T>> = seq![*data];
        let n = self.children.len();
        let mut i: usize = 0;
        while i < n
            invariant
                n == self.children@.len(),
                n == start.children_spec().len(),
                i <= n,
                self.wf(),
                self.config() == start.config(),
                ds.len() == i + 1,
                ds[0] == *old(data),
                ds[i as int] == *data,
                forall|j: int| 0 <= j < i ==> #[trigger] start.handled_at(ds, self, j),
                forall|j: int| i <= j < n ==> #[trigger] self.children_spec()[j] == start.children_spec()[j],
            decreases n - i,
        {
            let ghost before = self.children_spec();
            let ghost prev = ds;
            let ghost prev_self = *self;
            proof {
                assert(before[i as int].wf());
            }
            let child = &mut self.children[i];
            match child {
                Child::Fixed { widget, .. } => widget.event(data),
                Child::Flex { widget, .. } => widget.event(data),
                _ => {},
            }
            proof {
                ds = ds.push(*data);
                assert forall|j: int| 0 <= j < self.children_spec().len() implies #[trigger] self.children_spec()[j].wf() by {
                    if j != i {
                        assert(before[j] == self.children_spec()[j]);
                    }
                }
                assert forall|j: int| 0 <= j < i + 1 implies #[trigger] start.handled_at(ds, self, j) by {
                    assert(ds[j] == prev.push(*data)[j]);
                    if j < i {
                        assert(before[j] == self.children_spec()[j]);
                        assert(start.handled_at(prev, &prev_self, j));
                    }
                }
                assert forall|j: int| i + 1 <= j < n implies #[trigger] self.children_spec()[j] == start.children_spec()[j] by {
                    assert(before[j] == self.children_spec()[j]);
                }
            }
            i = i + 1;
        }
    }
}

/// Laying a container out twice under the same constraints gives the same size and the
/// same child positions and sizes both times.
pub proof fn lemma_layout_idempotent<T, W: Widget<T>>(
    before: Flex<T, W>,
    once: Flex<T, W>,
    twice: Flex<T, W>,
    bc: BoxConstraints,
    r1: Size,
    r2: Size,
)
    requires
        before.lays_out(bc, &once, r1),
        once.lays_out(bc, &twice, r2),
    ensures
        r1 == r2,
        forall|j: int|
            0 <= j < once.children_spec().len() && is_content(#[trigger] once.shapes()[j].slot) ==> {
                &&& twice.children_spec()[j].recorded_origin() == once.children_spec()[j].recorded_origin()
                &&& twice.children_spec()[j].recorded_size() == once.children_spec()[j].recorded_size()
            },
{
}

} // verus!
