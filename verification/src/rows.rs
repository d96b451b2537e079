//! The first stage: pixels are collected into rows.
//!
//! A row is a run of pixels on one line whose `x` grows by one from pixel to
//! pixel. The collector keeps the run it is building; a pixel that does not
//! continue the run closes it and starts the next. A run that has reached
//! the width limit is closed in the same way, and the pixel that did not fit
//! starts the next run. Pixels are never reordered: input that is not in
//! row-major order gives more and shorter rows, never wrong ones.

use crate::buffer::{row_colors, row_colors_new, row_colors_push, RowColors};
use crate::pixel::{CapacityError, Pixel, PixelRow, RowView, MAX_ROW_WIDTH};
use vstd::prelude::*;

verus! {

/// The rows that come out when `pixels` arrive while `pending` is the run
/// being built: every row that a pixel closes, in order, and at the end the
/// run that is then pending.
pub open spec fn rows_from(pending: Option<RowView>, pixels: Seq<Pixel>, max_width: nat) -> Seq<
    RowView,
>
    decreases pixels.len(),
{
    if pixels.len() == 0 {
        match pending {
            Some(row) => seq![row],
            None => Seq::empty(),
        }
    } else {
        let pixel = pixels.first();
        let rest = pixels.drop_first();
        match pending {
            Some(row) => if row.accepts(pixel, max_width) {
                rows_from(Some(row.extended(pixel)), rest, max_width)
            } else {
                seq![row] + rows_from(Some(RowView::single(pixel)), rest, max_width)
            },
            None => rows_from(Some(RowView::single(pixel)), rest, max_width),
        }
    }
}

/// The rows that `pixels` are batched into when no row may hold more than
/// `max_width` colours.
pub open spec fn rows_of(pixels: Seq<Pixel>, max_width: nat) -> Seq<RowView> {
    rows_from(None, pixels, max_width)
}

/// The state of the row stage: the run being built, if any, and the width
/// limit. It is fed one pixel at a time and hands out each row as soon as a
/// pixel closes it.
#[derive(Debug)]
pub struct RowCollector {
    x_left: u16,
    x_right: u16,
    y: u16,
    colors: RowColors,
    first_pixel: bool,
    max_width: usize,
}

impl RowCollector {
    /// The run being built, or `None` before the first pixel and after
    /// [`finish`](Self::finish).
    pub closed spec fn pending(&self) -> Option<RowView> {
        if self.first_pixel {
            None
        } else {
            Some(
                RowView {
                    x_left: self.x_left,
                    x_right: self.x_right,
                    y: self.y,
                    colors: row_colors(self.colors),
                },
            )
        }
    }

    /// The most colours that a row of this collector holds.
    pub closed spec fn max_width(&self) -> nat {
        self.max_width as nat
    }

    /// The width limit is between 1 and [`MAX_ROW_WIDTH`], and the pending
    /// run is a well-formed row within it.
    pub open spec fn wf(&self) -> bool {
        &&& 1 <= self.max_width() <= MAX_ROW_WIDTH
        &&& self.pending() matches Some(row) ==> row.well_formed(self.max_width())
    }

    /// A collector with no pending run, whose rows hold up to
    /// [`MAX_ROW_WIDTH`] colours.
    pub fn new() -> (collector: Self)
        ensures
            collector.wf(),
            collector.pending() is None,
            collector.max_width() == MAX_ROW_WIDTH,
    {
        RowCollector {
            x_left: 0,
            x_right: 0,
            y: 0,
            colors: row_colors_new(),
            first_pixel: true,
            max_width: MAX_ROW_WIDTH,
        }
    }

    /// A collector with no pending run, whose rows hold up to `max_width`
    /// colours. A limit of zero could not hold a single pixel and a limit
    /// above [`MAX_ROW_WIDTH`] does not fit the row buffer: both are
    /// refused.
    pub fn with_max_width(max_width: usize) -> (collector: Result<Self, CapacityError>)
        ensures
            match collector {
                Ok(c) => {
                    &&& 1 <= max_width <= MAX_ROW_WIDTH
                    &&& c.wf()
                    &&& c.pending() is None
                    &&& c.max_width() == max_width
                },
                Err(CapacityError::Zero) => max_width == 0,
                Err(CapacityError::TooLarge) => max_width > MAX_ROW_WIDTH,
            },
    {
        if max_width == 0 {
            return Err(CapacityError::Zero);
        }
        if max_width > MAX_ROW_WIDTH {
            return Err(CapacityError::TooLarge);
        }
        Ok(
            RowCollector {
                x_left: 0,
                x_right: 0,
                y: 0,
                colors: row_colors_new(),
                first_pixel: true,
                max_width,
            },
        )
    }

    /// Takes the next pixel of the stream.
    ///
    /// A pixel that continues the pending run is added to it and nothing
    /// comes out. Any other pixel starts a new run, and the run that was
    /// pending before, if there was one, comes out as a row.
    pub fn push(&mut self, pixel: Pixel) -> (row: Option<PixelRow>)
        requires
            old(self).wf(),
        ensures
            final(self).wf(),
            final(self).max_width() == old(self).max_width(),
            match old(self).pending() {
                Some(run) => if run.accepts(pixel, old(self).max_width()) {
                    &&& row is None
                    &&& final(self).pending() == Some(run.extended(pixel))
                } else {
                    &&& row matches Some(r)
                    &&& r@ == run
                    &&& final(self).pending() == Some(RowView::single(pixel))
                },
                None => {
                    &&& row is None
                    &&& final(self).pending() == Some(RowView::single(pixel))
                },
            },
    {
        if self.first_pixel {
            self.first_pixel = false;
            self.x_left = pixel.x;
            self.x_right = pixel.x;
            self.y = pixel.y;
            self.colors = row_colors_new();
            let pushed = row_colors_push(&mut self.colors, pixel.color);
            assert(pushed is Ok);
            assert(row_colors(self.colors) =~= seq![pixel.color]);
            return None;
        }
        let width: usize = (self.x_right - self.x_left) as usize + 1;
        if self.x_right < u16::MAX && pixel.x == self.x_right + 1 && pixel.y == self.y && width
            < self.max_width {
            let pushed = row_colors_push(&mut self.colors, pixel.color);
            assert(pushed is Ok);
            self.x_right = pixel.x;
            return None;
        }
        let mut colors = row_colors_new();
        let pushed = row_colors_push(&mut colors, pixel.color);
        assert(pushed is Ok);
        assert(row_colors(colors) =~= seq![pixel.color]);
        core::mem::swap(&mut self.colors, &mut colors);
        let row = PixelRow { x_left: self.x_left, x_right: self.x_right, y: self.y, colors };
        self.x_left = pixel.x;
        self.x_right = pixel.x;
        self.y = pixel.y;
        Some(row)
    }

    /// Ends the stream: the pending run, if there is one, comes out as a
    /// row, and the collector is as new.
    pub fn finish(&mut self) -> (row: Option<PixelRow>)
        requires
            old(self).wf(),
        ensures
            final(self).wf(),
            final(self).max_width() == old(self).max_width(),
            final(self).pending() is None,
            match row {
                Some(r) => old(self).pending() == Some(r@),
                None => old(self).pending() is None,
            },
    {
        if self.first_pixel {
            return None;
        }
        let mut colors = row_colors_new();
        core::mem::swap(&mut self.colors, &mut colors);
        self.first_pixel = true;
        Some(PixelRow { x_left: self.x_left, x_right: self.x_right, y: self.y, colors })
    }
}

/// The row stage over a list of pixels: each call of
/// [`next`](Self::next) pulls pixels until one closes a row or the list
/// ends.
#[derive(Debug)]
pub struct RowIterator {
    pixels: Vec<Pixel>,
    next_pixel: usize,
    run: RowCollector,
}

impl RowIterator {
    /// The pixels that have not been pulled yet.
    pub closed spec fn remaining(&self) -> Seq<Pixel> {
        self.pixels@.skip(self.next_pixel as int)
    }

    /// The run being built from the pixels pulled so far.
    pub closed spec fn pending(&self) -> Option<RowView> {
        self.run.pending()
    }

    /// The most colours that a row of this iterator holds.
    pub closed spec fn max_width(&self) -> nat {
        self.run.max_width()
    }

    /// The position in the pixel list is within it, and the collector is
    /// well-formed.
    pub closed spec fn wf(&self) -> bool {
        &&& self.next_pixel <= self.pixels.len()
        &&& self.run.wf()
    }

    /// The rows that the calls of [`next`](Self::next) from now on hand out,
    /// in order.
    pub open spec fn output(&self) -> Seq<RowView> {
        rows_from(self.pending(), self.remaining(), self.max_width())
    }

    /// An iterator over the rows of `pixels`, none of them wider than
    /// `max_width`. A limit of zero or above [`MAX_ROW_WIDTH`] is refused.
    pub fn with_max_width(pixels: Vec<Pixel>, max_width: usize) -> (rows: Result<
        Self,
        CapacityError,
    >)
        ensures
            match rows {
                Ok(it) => {
                    &&& 1 <= max_width <= MAX_ROW_WIDTH
                    &&& it.wf()
                    &&& it.max_width() == max_width
                    &&& it.pending() is None
                    &&& it.remaining() == pixels@
                    &&& it.output() == rows_of(pixels@, max_width as nat)
                },
                Err(CapacityError::Zero) => max_width == 0,
                Err(CapacityError::TooLarge) => max_width > MAX_ROW_WIDTH,
            },
    {
        match RowCollector::with_max_width(max_width) {
            Ok(run) => {
                assert(pixels@.skip(0) =~= pixels@);
                Ok(RowIterator { pixels, next_pixel: 0, run })
            },
            Err(refused) => Err(refused),
        }
    }

    /// The next row, or `None` when the pixels are used up and the last row
    /// has been handed out.
    ///
    /// The call pulls pixels only until one closes a row: that pixel is then
    /// the pending run, and the pixels behind it are still to come. Where no
    /// pixel closes the row, the pixels are used up and nothing is pending.
    pub fn next(&mut self) -> (row: Option<PixelRow>)
        requires
            old(self).wf(),
        ensures
            final(self).wf(),
            final(self).max_width() == old(self).max_width(),
            match row {
                Some(r) => {
                    &&& old(self).output().len() > 0
                    &&& r@ == old(self).output().first()
                    &&& r@.well_formed(old(self).max_width())
                    &&& final(self).output() == old(self).output().drop_first()
                },
                None => {
                    &&& old(self).output().len() == 0
                    &&& final(self).output().len() == 0
                },
            },
            final(self).remaining().len() <= old(self).remaining().len(),
            final(self).remaining() == old(self).remaining().skip(
                old(self).remaining().len() - final(self).remaining().len(),
            ),
            match final(self).pending() {
                Some(run) => {
                    &&& row is Some
                    &&& final(self).remaining().len() < old(self).remaining().len()
                    &&& run == RowView::single(
                        old(self).remaining()[old(self).remaining().len()
                            - final(self).remaining().len() - 1],
                    )
                },
                None => final(self).remaining().len() == 0,
            },
    {
        loop
            invariant
                self.wf(),
                self.max_width() == old(self).max_width(),
                self.output() == old(self).output(),
                self.pixels == old(self).pixels,
                old(self).next_pixel <= self.next_pixel,
            decreases self.remaining().len(),
        {
            if self.next_pixel >= self.pixels.len() {
                let row = self.run.finish();
                proof {
                    if row is Some {
                        assert(old(self).output().drop_first() =~= Seq::<RowView>::empty());
                    }
                    assert(self.remaining() =~= old(self).remaining().skip(
                        old(self).remaining().len() - self.remaining().len(),
                    ));
                }
                return row;
            }
            let pixel = self.pixels[self.next_pixel];
            proof {
                assert(self.remaining().first() == pixel);
                assert(self.remaining().drop_first() =~= self.pixels@.skip(self.next_pixel + 1));
            }
            self.next_pixel = self.next_pixel + 1;
            let row = self.run.push(pixel);
            if row.is_some() {
                proof {
                    assert(old(self).output().drop_first() =~= self.output());
                    assert(self.remaining() =~= old(self).remaining().skip(
                        old(self).remaining().len() - self.remaining().len(),
                    ));
                }
                return row;
            }
        }
    }
}

/// Batches `pixels` into rows of up to [`MAX_ROW_WIDTH`] colours.
pub fn to_rows(pixels: Vec<Pixel>) -> (rows: RowIterator)
    ensures
        rows.wf(),
        rows.max_width() == MAX_ROW_WIDTH,
        rows.pending() is None,
        rows.remaining() == pixels@,
        rows.output() == rows_of(pixels@, MAX_ROW_WIDTH as nat),
{
    assert(pixels@.skip(0) =~= pixels@);
    RowIterator { pixels, next_pixel: 0, run: RowCollector::new() }
}

} // verus!
