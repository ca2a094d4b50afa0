use vstd::prelude::*;

use std::marker::PhantomData;

use crate::box_constraints::BoxConstraints;
use crate::size::{sat, Size};
use crate::widget::{put_spec, unchanged_outside, DataWrapper, Region, Widget};

verus! {

/// The state of a scan over text: the widest line so far, the number of lines, and the
/// column after the last character.
pub struct TextScan {
    pub width: nat,
    pub height: nat,
    pub col: nat,
}

/// One character more: a newline starts a new line; any other character goes on the current
/// line, which first wraps where it is already `max_width` wide (for a positive `max_width`).
pub open spec fn text_step(st: TextScan, ch: char, max_width: nat) -> TextScan {
    if ch == '\n' {
        TextScan { width: st.width, height: sat(st.height + 1), col: 0 }
    } else {
        let wrap = max_width > 0 && st.col >= max_width;
        let height = if wrap {
            sat(st.height + 1)
        } else {
            st.height
        };
        let col = if wrap {
            1
        } else {
            sat(st.col + 1)
        };
        TextScan {
            width: if col > st.width {
                col
            } else {
                st.width
            },
            height,
            col,
        }
    }
}

/// The scan of all of `s`, starting on one empty line.
pub open spec fn text_scan(s: Seq<char>, max_width: nat) -> TextScan
    decreases s.len(),
{
    if s.len() == 0 {
        TextScan { width: 0, height: 1, col: 0 }
    } else {
        text_step(text_scan(s.drop_last(), max_width), s.last(), max_width)
    }
}

/// The size that text `s` takes under `bc`: its lines wrapped at the maximum width,
/// then clamped into `bc`.
pub open spec fn text_size(s: Seq<char>, bc: BoxConstraints) -> Size {
    let scan = text_scan(s, bc.upper().width as nat);
    bc.constrain_spec(Size { width: scan.width as usize, height: scan.height as usize })
}

/// The state of painting text: the buffer so far and the cell the next character goes to.
pub struct PaintScan {
    pub buf: Seq<char>,
    pub col: nat,
    pub row: nat,
}

/// Paints one character more: a newline moves to the start of the next row; any other
/// character first wraps to the next row where the current one is full, then is written
/// into its cell of `region`.
pub open spec fn paint_step(st: PaintScan, ch: char, region: Region) -> PaintScan {
    if ch == '\n' {
        PaintScan { buf: st.buf, col: 0, row: sat(st.row + 1) }
    } else {
        let wrap = region.width > 0 && st.col >= region.width;
        let row = if wrap {
            sat(st.row + 1)
        } else {
            st.row
        };
        let col = if wrap {
            0
        } else {
            st.col
        };
        PaintScan { buf: put_spec(region, st.buf, col as int, row as int, ch), col: sat(col + 1), row }
    }
}

/// Painting all of `s` into `region` of `buf`, starting at its top-left cell.
pub open spec fn text_paint(s: Seq<char>, region: Region, buf: Seq<char>) -> PaintScan
    decreases s.len(),
{
    if s.len() == 0 {
        PaintScan { buf, col: 0, row: 0 }
    } else {
        paint_step(text_paint(s.drop_last(), region, buf), s.last(), region)
    }
}

/// A leaf widget showing a string that a function derives from the application state.
pub struct Text<T, F> {
    data: PhantomData<T>,
    text: F,
    buf: String,
}

impl<T, F: Fn(&DataWrapper<T>) -> String> Text<T, F> {
    /// The text shown.
    pub open spec fn content(&self) -> Seq<char> {
        self.shown()@
    }

    /// The text shown, as a string.
    pub closed spec fn shown(&self) -> String {
        self.buf
    }

    /// The function from the application state to the text.
    pub closed spec fn source(&self) -> F {
        self.text
    }

    /// A text widget that shows what `text` makes of the state; it shows nothing until
    /// its first update.
    pub fn new(text: F) -> (r: Self)
        requires
            forall|d: &DataWrapper<T>| #[trigger] text.requires((d,)),
        ensures
            r.source() == text,
            r.content() == Seq::<char>::empty(),
            r.inv(),
    {
        Text { data: PhantomData, text, buf: String::new() }
    }

    /// The text shown.
    pub fn text(&self) -> (r: &String)
        ensures
            r@ == self.content(),
    {
        &self.buf
    }
}

/// The state of a scan over `s` with lines wrapped at `max_width`.
fn scan_text(s: &String, max_width: usize) -> (r: (usize, usize))
    ensures
        r.0 == text_scan(s@, max_width as nat).width,
        r.1 == text_scan(s@, max_width as nat).height,
{
    let mut width: usize = 0;
    let mut height: usize = 1;
    let mut col: usize = 0;
    for ch in it: s.as_str().chars()
        invariant
            it.seq() == s@,
            text_scan(s@.take(it.index() as int), max_width as nat) == (TextScan {
                width: width as nat,
                height: height as nat,
                col: col as nat,
            }),
    {
        proof {
            let pre = s@.take(it.index() as int);
            assert(s@.take(it.index() + 1).drop_last() == pre);
        }
        if ch == '\n' {
            height = height.saturating_add(1);
            col = 0;
        } else {
            if max_width > 0 && col >= max_width {
                height = height.saturating_add(1);
                col = 1;
            } else {
                col = col.saturating_add(1);
            }
            if col > width {
                width = col;
            }
        }
    }
    proof {
        assert(s@.take(s@.len() as int) == s@);
    }
    (width, height)
}

impl<T, F: Fn(&DataWrapper<T>) -> String> Widget<T> for Text<T, F> {
    open spec fn inv(&self) -> bool {
        forall|d: &DataWrapper<T>| #[trigger] self.source().requires((d,))
    }

    open spec fn measure(&self, bc: BoxConstraints) -> Size {
        text_size(self.content(), bc)
    }

    open spec fn updated(&self, data: &DataWrapper<T>, after: &Self) -> bool {
        &&& after.source() == self.source()
        &&& self.source().ensures((data,), after.shown())
    }

    open spec fn lays_out(&self, bc: BoxConstraints, after: &Self, r: Size) -> bool {
        *after == *self
    }

    open spec fn painted(&self, region: Region, before: Seq<char>, after: Seq<char>) -> bool {
        after == text_paint(self.content(), region, before).buf
    }

    open spec fn handled(
        &self,
        data_before: DataWrapper<T>,
        data_after: DataWrapper<T>,
        after: &Self,
    ) -> bool {
        *after == *self && data_after == data_before
    }

    proof fn lemma_measure_fits(&self, bc: BoxConstraints) {
    }

    fn update(&mut self, data: &DataWrapper<T>) {
        assert(self.source().requires((data,)));
        self.buf = (self.text)(data);
    }

    fn layout(&mut self, bc: &BoxConstraints) -> (r: Size) {
        let (width, height) = scan_text(&self.buf, bc.max().width);
        bc.constrain(Size::new(width, height))
    }

    fn paint(&self, buf: &mut Vec<char>, region: Region) {
        let mut col: usize = 0;
        let mut row: usize = 0;
        for ch in it: self.buf.as_str().chars()
            invariant
                it.seq() == self.content(),
                unchanged_outside(region, old(buf)@, buf@),
                text_paint(self.content().take(it.index() as int), region, old(buf)@) == (PaintScan {
                    buf: buf@,
                    col: col as nat,
                    row: row as nat,
                }),
        {
            proof {
                assert(self.content().take(it.index() + 1).drop_last() == self.content().take(
                    it.index() as int,
                ));
            }
            if ch == '\n' {
                row = row.saturating_add(1);
                col = 0;
            } else {
                if region.width > 0 && col >= region.width {
                    row = row.saturating_add(1);
                    col = 0;
                }
                region.put(buf, col, row, ch);
                col = col.saturating_add(1);
            }
        }
        proof {
            assert(self.content().take(self.content().len() as int) == self.content());
        }
    }

    fn event(&mut self, data: &mut DataWrapper<T>) {
    }
}

} // verus!
