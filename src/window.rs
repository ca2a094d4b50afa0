use vstd::prelude::*;

use crate::box_constraints::BoxConstraints;
use crate::size::Size;
use crate::widget::{DataWrapper, Region, Widget};

verus! {

/// The frame driver's state: the application state, the root of the widget tree, and the
/// character buffer of the last frame, `columns * rows` cells in row-major order.
pub struct Window<T, W> {
    buf: Vec<char>,
    data: DataWrapper<T>,
    root_widget: W,
}

/// `n` blank cells.
fn blank(n: usize) -> (r: Vec<char>)
    ensures
        r@.len() == n,
        forall|i: int| 0 <= i < n ==> #[trigger] r@[i] == ' ',
{
    let mut v: Vec<char> = Vec::new();
    while v.len() < n
        invariant
            v@.len() <= n,
            forall|i: int| 0 <= i < v@.len() ==> #[trigger] v@[i] == ' ',
        decreases n - v@.len(),
    {
        v.push(' ');
    }
    v
}

/// The constraints a frame offers the root: anything up to the terminal's size.
pub open spec fn frame_bc(columns: u16, rows: u16) -> BoxConstraints {
    BoxConstraints::from_bounds(Size::zero_spec(), frame_size(columns, rows))
}

/// The size of a terminal of `columns` by `rows`.
pub open spec fn frame_size(columns: u16, rows: u16) -> Size {
    Size { width: columns as usize, height: rows as usize }
}

/// One frame took window `before` to `after`, returning `drawn`: the root handled input
/// (becoming `handled`, the state becoming `data`), then reacted to `data` (becoming
/// `updated`); where `data` counted as changed, `updated` was laid out within the frame's
/// constraints into the final root, which painted a blank buffer into the final buffer.
pub open spec fn frame_steps<T, W: Widget<T>>(
    before: Window<T, W>,
    after: Window<T, W>,
    columns: u16,
    rows: u16,
    drawn: bool,
    handled: W,
    data: DataWrapper<T>,
    updated: W,
) -> bool {
    let bc = frame_bc(columns, rows);
    &&& before.root().handled(before.state(), data, &handled)
    &&& handled.updated(&data, &updated)
    &&& drawn == data.is_changed()
    &&& after.state().value() == data.value()
    &&& drawn ==> {
        &&& updated.lays_out(bc, &after.root(), updated.measure(bc))
        &&& after.root().painted(
            Region::full_spec(frame_size(columns, rows)),
            Seq::new((columns * rows) as nat, |i: int| ' '),
            after.buffer_spec(),
        )
    }
    &&& !drawn ==> after.root() == updated && after.buffer_spec() == before.buffer_spec()
}

impl<T, W: Widget<T>> Window<T, W> {
    /// The character buffer of the last frame drawn.
    pub closed spec fn buffer_spec(&self) -> Seq<char> {
        self.buf@
    }

    /// The application state.
    pub closed spec fn state(&self) -> DataWrapper<T> {
        self.data
    }

    /// The root widget.
    pub closed spec fn root(&self) -> W {
        self.root_widget
    }

    /// A window over `data` with `root` as its widget tree; nothing drawn yet, and the state
    /// counts as changed so that the first frame is drawn.
    pub fn new(data: T, root: W) -> (r: Self)
        requires
            root.inv(),
        ensures
            r.buffer_spec() == Seq::<char>::empty(),
            r.state().is_changed(),
            r.state().value() == data,
            r.root() == root,
            r.root().inv(),
    {
        Window { buf: Vec::new(), data: DataWrapper::new(data), root_widget: root }
    }

    /// One frame for a terminal of `columns` by `rows`: the root reacts to input and to the
    /// state; where the state changed since the last frame, the root is laid out within the
    /// terminal's size and painted into a fresh blank buffer. Returns whether it drew.
    pub fn draw(&mut self, columns: u16, rows: u16) -> (r: bool)
        requires
            old(self).root().inv(),
        ensures
            final(self).root().inv(),
            !final(self).state().is_changed(),
            r ==> final(self).buffer_spec().len() == columns * rows,
            !r ==> final(self).buffer_spec() == old(self).buffer_spec(),
            exists|handled: W, data: DataWrapper<T>, updated: W| #[trigger]
                frame_steps(*old(self), *final(self), columns, rows, r, handled, data, updated),
    {
        let ghost start = *self;
        self.root_widget.event(&mut self.data);
        let ghost handled = self.root_widget;
        let ghost data = self.data;
        self.root_widget.update(&self.data);
        let ghost updated = self.root_widget;
        if self.data.changed() {
            let size = Size::new(columns as usize, rows as usize);
            assert(columns as usize * rows as usize <= 0xffff * 0xffff) by (nonlinear_arith)
                requires
                    columns <= 0xffff,
                    rows <= 0xffff,
            ;
            let mut buf = blank(columns as usize * rows as usize);
            let bc = BoxConstraints::new(Size::zero(), size);
            self.root_widget.layout(&bc);
            let region = Region::full(size);
            let ghost blank_cells = buf@;
            self.root_widget.paint(&mut buf, region);
            self.buf = buf;
            proof {
                assert(blank_cells =~= Seq::new((columns * rows) as nat, |i: int| ' '));
                assert(frame_steps(start, *self, columns, rows, true, handled, data, updated));
            }
            true
        } else {
            proof {
                assert(frame_steps(start, *self, columns, rows, false, handled, data, updated));
            }
            false
        }
    }

    /// The character buffer of the last frame drawn.
    pub fn buffer(&self) -> (r: &Vec<char>)
        ensures
            r@ == self.buffer_spec(),
    {
        &self.buf
    }

    /// The application state, for writing; this marks it changed.
    pub fn data_mut(&mut self) -> (r: &mut T)
        ensures
            *r == old(self).state().value(),
            final(self).state().is_changed(),
            final(self).state().value() == *final(r),
            final(self).root() == old(self).root(),
            final(self).buffer_spec() == old(self).buffer_spec(),
    {
        self.data.get_mut()
    }
}

} // verus!
