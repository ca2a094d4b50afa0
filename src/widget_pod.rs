use vstd::prelude::*;

use std::marker::PhantomData;

use crate::box_constraints::BoxConstraints;
use crate::geometry::Point;
use crate::size::Size;
use crate::widget::{lemma_outside_sub, outside, DataWrapper, Region, Widget};

verus! {

/// A child widget together with the place its parent gave it and the size of its last
/// layout. The child itself does not know where it stands: it paints relative to `(0, 0)`.
pub struct WidgetPod<T, W> {
    data: PhantomData<T>,
    inner: W,
    origin: Point,
    size: Size,
}

impl<T, W: Widget<T>> WidgetPod<T, W> {
    /// The wrapped widget.
    pub closed spec fn inner_spec(&self) -> W {
        self.inner
    }

    /// The position assigned by the parent.
    pub closed spec fn origin_spec(&self) -> Point {
        self.origin
    }

    /// The size the child settles on under each constraint.
    pub open spec fn measure_fn(&self) -> spec_fn(BoxConstraints) -> Size {
        |b: BoxConstraints| self.inner_spec().measure(b)
    }

    /// The size of the last layout.
    pub closed spec fn size_spec(&self) -> Size {
        self.size
    }

    /// Wraps `inner`, placed at `(0, 0)` and not yet measured.
    pub fn new(inner: W) -> (r: Self)
        ensures
            r.inner_spec() == inner,
            r.origin_spec() == (Point { x: 0, y: 0 }),
            r.size_spec() == Size::zero_spec(),
    {
        WidgetPod { data: PhantomData, inner, origin: Point { x: 0, y: 0 }, size: Size::zero() }
    }

    /// Places the child at `p`.
    pub fn set_origin(&mut self, p: Point)
        ensures
            final(self).origin_spec() == p,
            final(self).inner_spec() == old(self).inner_spec(),
            final(self).size_spec() == old(self).size_spec(),
    {
        self.origin = p;
    }

    /// The position assigned by the parent.
    pub fn origin(&self) -> (r: Point)
        ensures
            r == self.origin_spec(),
    {
        self.origin
    }

    /// The size of the last layout.
    pub fn layout_size(&self) -> (r: Size)
        ensures
            r == self.size_spec(),
    {
        self.size
    }

    /// The wrapped widget.
    pub fn inner(&self) -> (r: &W)
        ensures
            *r == self.inner_spec(),
    {
        &self.inner
    }

    /// Lays the child out under `bc` and records the size it settles on.
    pub fn lay_out(&mut self, bc: &BoxConstraints) -> (r: Size)
        requires
            old(self).inner_spec().inv(),
            bc.wf(),
        ensures
            final(self).inner_spec().inv(),
            r == old(self).inner_spec().measure(*bc),
            bc.contains_spec(r),
            forall|c: BoxConstraints| #[trigger]
                final(self).inner_spec().measure(c) == old(self).inner_spec().measure(c),
            final(self).measure_fn() == old(self).measure_fn(),
            final(self).size_spec() == r,
            final(self).origin_spec() == old(self).origin_spec(),
            old(self).inner_spec().lays_out(*bc, &final(self).inner_spec(), r),
    {
        let ghost before = self.measure_fn();
        let r = self.inner.layout(bc);
        self.size = r;
        assert(self.measure_fn() =~= before);
        r
    }
}

impl<T, W: Widget<T>> Widget<T> for WidgetPod<T, W> {
    open spec fn inv(&self) -> bool {
        self.inner_spec().inv()
    }

    open spec fn measure(&self, bc: BoxConstraints) -> Size {
        self.inner_spec().measure(bc)
    }

    open spec fn updated(&self, data: &DataWrapper<T>, after: &Self) -> bool {
        &&& after.origin_spec() == self.origin_spec()
        &&& after.size_spec() == self.size_spec()
        &&& self.inner_spec().updated(data, &after.inner_spec())
    }

    open spec fn lays_out(&self, bc: BoxConstraints, after: &Self, r: Size) -> bool {
        &&& after.origin_spec() == self.origin_spec()
        &&& after.size_spec() == r
        &&& self.inner_spec().lays_out(bc, &after.inner_spec(), r)
    }

    /// The child paints into the part of `region` at its origin, of the size of its last layout.
    open spec fn painted(&self, region: Region, before: Seq<char>, after: Seq<char>) -> bool {
        self.inner_spec().painted(region.sub_spec(self.origin_spec(), self.size_spec()), before, after)
    }

    open spec fn handled(
        &self,
        data_before: DataWrapper<T>,
        data_after: DataWrapper<T>,
        after: &Self,
    ) -> bool {
        &&& after.origin_spec() == self.origin_spec()
        &&& after.size_spec() == self.size_spec()
        &&& self.inner_spec().handled(data_before, data_after, &after.inner_spec())
    }

    proof fn lemma_measure_fits(&self, bc: BoxConstraints) {
        self.inner.lemma_measure_fits(bc);
    }

    fn update(&mut self, data: &DataWrapper<T>) {
        self.inner.update(data)
    }

    fn layout(&mut self, bc: &BoxConstraints) -> (r: Size) {
        self.lay_out(bc)
    }

    fn paint(&self, buf: &mut Vec<char>, region: Region) {
        let ghost before = buf@;
        self.inner.paint(buf, region.sub(self.origin, self.size));
        proof {
            assert forall|k: int|
                0 <= k < before.len() && outside(region, before.len() as int, k) implies #[trigger] buf@[k]
                == before[k] by {
                lemma_outside_sub(region, self.origin, self.size, before.len() as int, k);
            }
        }
    }

    fn event(&mut self, data: &mut DataWrapper<T>) {
        self.inner.event(data)
    }
}

} // verus!
