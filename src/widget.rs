use vstd::prelude::*;

use crate::box_constraints::BoxConstraints;
use crate::geometry::Point;
use crate::size::Size;

verus! {

/// Marker for application state that a widget tree reads and changes.
pub trait Data {

}

impl<T> Data for std::sync::Arc<T> {

}

/// Application state together with a flag that records whether it changed since the
/// last frame was drawn.
pub struct DataWrapper<T> {
    changed: bool,
    data: T,
}

impl<T> DataWrapper<T> {
    /// Whether the state changed since the flag was last taken.
    pub closed spec fn is_changed(&self) -> bool {
        self.changed
    }

    /// The wrapped state.
    pub closed spec fn value(&self) -> T {
        self.data
    }

    /// Wraps `data`; a new wrapper counts as changed, so the first frame is drawn.
    pub fn new(data: T) -> (r: Self)
        ensures
            r.is_changed(),
            r.value() == data,
    {
        DataWrapper { changed: true, data }
    }

    /// Takes the changed flag: returns it and clears it.
    pub fn changed(&mut self) -> (r: bool)
        ensures
            r == old(self).is_changed(),
            !final(self).is_changed(),
            final(self).value() == old(self).value(),
    {
        if self.changed {
            self.changed = false;
            true
        } else {
            false
        }
    }

    /// Reads the state.
    pub fn get(&self) -> (r: &T)
        ensures
            *r == self.value(),
    {
        &self.data
    }

    /// Borrows the state for writing; this marks it changed.
    pub fn get_mut(&mut self) -> (r: &mut T)
        ensures
            *r == old(self).value(),
            final(self).is_changed(),
            final(self).value() == *final(r),
    {
        self.changed = true;
        &mut self.data
    }
}

/// A rectangular window onto a row-major character buffer that is `stride` cells wide:
/// cell `(col, row)` of the window is cell `(x + col, y + row)` of the buffer.
#[derive(Clone, Copy, Debug, PartialEq, Eq, Structural)]
pub struct Region {
    pub stride: usize,
    pub x: usize,
    pub y: usize,
    pub width: usize,
    pub height: usize,
}

/// The buffer index of cell `(col, row)` of `region`, where the window and the buffer
/// hold that cell.
pub open spec fn cell_index(region: Region, col: int, row: int, len: int) -> Option<int> {
    if 0 <= col < region.width && 0 <= row < region.height && region.x + col < region.stride
        && (region.y + row) * region.stride + region.x + col < len {
        Some((region.y + row) * region.stride + region.x + col)
    } else {
        None
    }
}

/// Cell `k` of a buffer of `len` cells is not a cell of `region`.
pub open spec fn outside(region: Region, len: int, k: int) -> bool {
    forall|col: int, row: int| #[trigger] cell_index(region, col, row, len) != Some(k)
}

/// Every cell outside `region` holds in `after` what it held in `before`.
pub open spec fn unchanged_outside(region: Region, before: Seq<char>, after: Seq<char>) -> bool {
    &&& after.len() == before.len()
    &&& forall|k: int|
        0 <= k < before.len() && outside(region, before.len() as int, k) ==> #[trigger] after[k]
            == before[k]
}

/// A cell outside a window is outside every part of it.
pub proof fn lemma_outside_sub(region: Region, origin: Point, size: Size, len: int, k: int)
    requires
        outside(region, len, k),
    ensures
        outside(region.sub_spec(origin, size), len, k),
{
    let sub = region.sub_spec(origin, size);
    assert forall|col: int, row: int| #[trigger] cell_index(sub, col, row, len) != Some(k) by {
        if cell_index(sub, col, row, len) == Some(k) {
            assert(cell_index(region, origin.x + col, origin.y + row, len) != Some(k));
            assert((sub.y + row) * sub.stride == (region.y + (origin.y + row)) * region.stride);
        }
    }
}

/// `buf` with `ch` written into cell `(col, row)` of `region`, where the window and the
/// buffer hold that cell.
pub open spec fn put_spec(region: Region, buf: Seq<char>, col: int, row: int, ch: char) -> Seq<char> {
    match cell_index(region, col, row, buf.len() as int) {
        Some(i) => buf.update(i, ch),
        None => buf,
    }
}

impl Region {
    /// The part of this window that starts at `origin` and spans `size`, cut to its bounds.
    pub open spec fn sub_spec(self, origin: Point, size: Size) -> Region {
        let (x, width) = if origin.x < self.width && self.x <= usize::MAX - origin.x {
            (
                (self.x + origin.x) as usize,
                if size.width < self.width - origin.x {
                    size.width
                } else {
                    (self.width - origin.x) as usize
                },
            )
        } else {
            (self.x, 0usize)
        };
        let (y, height) = if origin.y < self.height && self.y <= usize::MAX - origin.y {
            (
                (self.y + origin.y) as usize,
                if size.height < self.height - origin.y {
                    size.height
                } else {
                    (self.height - origin.y) as usize
                },
            )
        } else {
            (self.y, 0usize)
        };
        Region { stride: self.stride, x, y, width, height }
    }

    /// The window that covers a whole buffer of `size`.
    pub open spec fn full_spec(size: Size) -> Region {
        Region { stride: size.width, x: 0, y: 0, width: size.width, height: size.height }
    }

    /// The window that covers a whole buffer of `size`.
    pub fn full(size: Size) -> (r: Region)
        ensures
            r == Region::full_spec(size),
    {
        Region { stride: size.width, x: 0, y: 0, width: size.width, height: size.height }
    }

    /// The part of this window that starts at `origin` (relative to this window) and
    /// spans `size`, cut to this window's own bounds.
    pub fn sub(&self, origin: Point, size: Size) -> (r: Region)
        ensures
            r == self.sub_spec(origin, size),
            r.stride == self.stride,
            r.width <= size.width,
            r.height <= size.height,
            r.width > 0 ==> origin.x < self.width && r.x == self.x + origin.x && r.width
                <= self.width - origin.x,
            r.height > 0 ==> origin.y < self.height && r.y == self.y + origin.y && r.height
                <= self.height - origin.y,
    {
        let (x, width) = if origin.x < self.width && self.x <= usize::MAX - origin.x {
            let room = self.width - origin.x;
            (self.x + origin.x, if size.width < room { size.width } else { room })
        } else {
            (self.x, 0)
        };
        let (y, height) = if origin.y < self.height && self.y <= usize::MAX - origin.y {
            let room = self.height - origin.y;
            (self.y + origin.y, if size.height < room { size.height } else { room })
        } else {
            (self.y, 0)
        };
        Region { stride: self.stride, x, y, width, height }
    }

    /// Writes `ch` into cell `(col, row)` of the window; a cell outside the window or
    /// past the end of the buffer is left alone.
    pub fn put(&self, buf: &mut Vec<char>, col: usize, row: usize, ch: char)
        ensures
            final(buf)@.len() == old(buf)@.len(),
            final(buf)@ == put_spec(*self, old(buf)@, col as int, row as int, ch),
            match cell_index(*self, col as int, row as int, old(buf)@.len() as int) {
                Some(i) => final(buf)@ == old(buf)@.update(i, ch),
                None => final(buf)@ == old(buf)@,
            },
    {
        if col < self.width && row < self.height && col < self.stride && self.x < self.stride
            - col {
            let len = buf.len();
            match self.y.checked_add(row) {
                Some(y) => match y.checked_mul(self.stride) {
                    Some(start) => match start.checked_add(self.x + col) {
                        Some(i) => {
                            if i < len {
                                buf.set(i, ch);
                            }
                        },
                        None => {},
                    },
                    None => {
                        assert(y * self.stride > usize::MAX);
                    },
                },
                None => {
                    assert((self.y + row) * self.stride >= self.y + row) by (nonlinear_arith)
                        requires
                            self.stride >= 1,
                            self.y + row >= 0,
                    ;
                },
            }
        }
    }
}

/// A node of the widget tree. Each frame the host calls `event`, then `update`, then
/// `layout`, then `paint`.
pub trait Widget<T> {
    /// The widget's own well-formedness.
    spec fn inv(&self) -> bool;

    /// The size that `layout` settles on under `bc`.
    spec fn measure(&self, bc: BoxConstraints) -> Size;

    /// The size settled on lies within the constraints.
    proof fn lemma_measure_fits(&self, bc: BoxConstraints)
        requires
            self.inv(),
            bc.wf(),
        ensures
            bc.contains_spec(self.measure(bc)),
    ;

    /// `after` is this widget once it has reacted to the state `data`.
    spec fn updated(&self, data: &DataWrapper<T>, after: &Self) -> bool;

    /// `after` is this widget once laid out under `bc`, which returned `r`.
    spec fn lays_out(&self, bc: BoxConstraints, after: &Self, r: Size) -> bool;

    /// `after` is what painting this widget into `region` makes of buffer `before`.
    spec fn painted(&self, region: Region, before: Seq<char>, after: Seq<char>) -> bool;

    /// `after` is this widget, and `data_after` the state, once it has handled input with
    /// the state at `data_before`.
    spec fn handled(
        &self,
        data_before: DataWrapper<T>,
        data_after: DataWrapper<T>,
        after: &Self,
    ) -> bool;

    /// Reacts to a change of the application state.
    fn update(&mut self, data: &DataWrapper<T>)
        requires
            old(self).inv(),
        ensures
            final(self).inv(),
            old(self).updated(data, final(self)),
    ;

    /// Settles on a size within `bc`; a second layout under any constraints gives
    /// what the first would have.
    fn layout(&mut self, bc: &BoxConstraints) -> (r: Size)
        requires
            old(self).inv(),
            bc.wf(),
        ensures
            final(self).inv(),
            r == old(self).measure(*bc),
            bc.contains_spec(r),
            forall|c: BoxConstraints| #[trigger] final(self).measure(c) == old(self).measure(c),
            old(self).lays_out(*bc, final(self), r),
    ;

    /// Draws the widget into `region` of `buf`; no cell outside the region changes.
    fn paint(&self, buf: &mut Vec<char>, region: Region)
        requires
            self.inv(),
        ensures
            unchanged_outside(region, old(buf)@, final(buf)@),
            self.painted(region, old(buf)@, final(buf)@),
    ;

    /// Reacts to input by changing the application state.
    fn event(&mut self, data: &mut DataWrapper<T>)
        requires
            old(self).inv(),
        ensures
            final(self).inv(),
            old(self).handled(*old(data), *final(data), final(self)),
    ;
}

} // verus!
