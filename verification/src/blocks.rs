//! The second stage: rows are collected into blocks.
//!
//! A block is a stack of rows with the same horizontal extent on adjacent
//! lines. The collector keeps the block it is building; a row that does not
//! continue the block closes it and starts the next. A block that has
//! reached the height limit is closed in the same way, and the row that did
//! not fit starts the next block.

use crate::buffer::{block_rows, block_rows_new, block_rows_push, BlockColors};
use crate::pixel::{
    BlockView, CapacityError, PixelBlock, PixelRow, RowView, MAX_BLOCK_HEIGHT,
};
use crate::rows::RowIterator;
use vstd::prelude::*;

verus! {

/// The blocks that come out when `rows` arrive while `pending` is the block
/// being built: every block that a row closes, in order, and at the end the
/// block that is then pending.
pub open spec fn blocks_from(pending: Option<BlockView>, rows: Seq<RowView>, max_height: nat) -> Seq<
    BlockView,
>
    decreases rows.len(),
{
    if rows.len() == 0 {
        match pending {
            Some(block) => seq![block],
            None => Seq::empty(),
        }
    } else {
        let row = rows.first();
        let rest = rows.drop_first();
        match pending {
            Some(block) => if block.accepts(row, max_height) {
                blocks_from(Some(block.extended(row)), rest, max_height)
            } else {
                seq![block] + blocks_from(Some(BlockView::single(row)), rest, max_height)
            },
            None => blocks_from(Some(BlockView::single(row)), rest, max_height),
        }
    }
}

/// The blocks that `rows` are batched into when no block may hold more than
/// `max_height` rows.
pub open spec fn blocks_of(rows: Seq<RowView>, max_height: nat) -> Seq<BlockView> {
    blocks_from(None, rows, max_height)
}

/// The state of the block stage: the block being built, if any, and the
/// height limit. It is fed one row at a time and hands out each block as
/// soon as a row closes it.
#[derive(Debug)]
pub struct BlockCollector {
    x_left: u16,
    x_right: u16,
    y_top: u16,
    y_bottom: u16,
    colors: BlockColors,
    first_row: bool,
    max_height: usize,
}

impl BlockCollector {
    /// The block being built, or `None` before the first row and after
    /// [`finish`](Self::finish).
    pub closed spec fn pending(&self) -> Option<BlockView> {
        if self.first_row {
            None
        } else {
            Some(
                BlockView {
                    x_left: self.x_left,
                    x_right: self.x_right,
                    y_top: self.y_top,
                    y_bottom: self.y_bottom,
                    rows: block_rows(self.colors),
                },
            )
        }
    }

    /// The most rows that a block of this collector holds.
    pub closed spec fn max_height(&self) -> nat {
        self.max_height as nat
    }

    /// The height limit is between 1 and [`MAX_BLOCK_HEIGHT`], and the
    /// pending block is well-formed within it.
    pub open spec fn wf(&self) -> bool {
        &&& 1 <= self.max_height() <= MAX_BLOCK_HEIGHT
        &&& self.pending() matches Some(block) ==> block.well_formed(self.max_height())
    }

    /// A collector with no pending block, whose blocks hold up to
    /// [`MAX_BLOCK_HEIGHT`] rows.
    pub fn new() -> (collector: Self)
        ensures
            collector.wf(),
            collector.pending() is None,
            collector.max_height() == MAX_BLOCK_HEIGHT,
    {
        BlockCollector {
            x_left: 0,
            x_right: 0,
            y_top: 0,
            y_bottom: 0,
            colors: block_rows_new(),
            first_row: true,
            max_height: MAX_BLOCK_HEIGHT,
        }
    }

    /// A collector with no pending block, whose blocks hold up to
    /// `max_height` rows. A limit of zero could not hold a single row and a
    /// limit above [`MAX_BLOCK_HEIGHT`] does not fit the block buffer: both
    /// are refused.
    pub fn with_max_height(max_height: usize) -> (collector: Result<Self, CapacityError>)
        ensures
            match collector {
                Ok(c) => {
                    &&& 1 <= max_height <= MAX_BLOCK_HEIGHT
                    &&& c.wf()
                    &&& c.pending() is None
                    &&& c.max_height() == max_height
                },
                Err(CapacityError::Zero) => max_height == 0,
                Err(CapacityError::TooLarge) => max_height > MAX_BLOCK_HEIGHT,
            },
    {
        if max_height == 0 {
            return Err(CapacityError::Zero);
        }
        if max_height > MAX_BLOCK_HEIGHT {
            return Err(CapacityError::TooLarge);
        }
        Ok(
            BlockCollector {
                x_left: 0,
                x_right: 0,
                y_top: 0,
                y_bottom: 0,
                colors: block_rows_new(),
                first_row: true,
                max_height,
            },
        )
    }

    /// Takes the next row of the stream.
    ///
    /// A row that continues the pending block is added to it and nothing
    /// comes out. Any other row starts a new block, and the block that was
    /// pending before, if there was one, comes out.
    pub fn push(&mut self, row: PixelRow) -> (block: Option<PixelBlock>)
        requires
            old(self).wf(),
        ensures
            final(self).wf(),
            final(self).max_height() == old(self).max_height(),
            match old(self).pending() {
                Some(stack) => if stack.accepts(row@, old(self).max_height()) {
                    &&& block is None
                    &&& final(self).pending() == Some(stack.extended(row@))
                } else {
                    &&& block matches Some(b)
                    &&& b@ == stack
                    &&& final(self).pending() == Some(BlockView::single(row@))
                },
                None => {
                    &&& block is None
                    &&& final(self).pending() == Some(BlockView::single(row@))
                },
            },
    {
        let PixelRow { x_left, x_right, y, colors } = row;
        if self.first_row {
            self.first_row = false;
            self.x_left = x_left;
            self.x_right = x_right;
            self.y_top = y;
            self.y_bottom = y;
            self.colors = block_rows_new();
            let pushed = block_rows_push(&mut self.colors, colors);
            assert(pushed is Ok);
            assert(block_rows(self.colors) =~= seq![row@.colors]);
            return None;
        }
        let height: usize = (self.y_bottom - self.y_top) as usize + 1;
        if self.y_bottom < u16::MAX && y == self.y_bottom + 1 && x_left == self.x_left && x_right
            == self.x_right && height < self.max_height {
            let pushed = block_rows_push(&mut self.colors, colors);
            assert(pushed is Ok);
            self.y_bottom = y;
            return None;
        }
        let mut rows = block_rows_new();
        let pushed = block_rows_push(&mut rows, colors);
        assert(pushed is Ok);
        assert(block_rows(rows) =~= seq![row@.colors]);
        core::mem::swap(&mut self.colors, &mut rows);
        let block = PixelBlock {
            x_left: self.x_left,
            x_right: self.x_right,
            y_top: self.y_top,
            y_bottom: self.y_bottom,
            colors: rows,
        };
        self.x_left = x_left;
        self.x_right = x_right;
        self.y_top = y;
        self.y_bottom = y;
        Some(block)
    }

    /// Ends the stream: the pending block, if there is one, comes out, and
    /// the collector is as new.
    pub fn finish(&mut self) -> (block: Option<PixelBlock>)
        requires
            old(self).wf(),
        ensures
            final(self).wf(),
            final(self).max_height() == old(self).max_height(),
            final(self).pending() is None,
            match block {
                Some(b) => old(self).pending() == Some(b@),
                None => old(self).pending() is None,
            },
    {
        if self.first_row {
            return None;
        }
        let mut rows = block_rows_new();
        core::mem::swap(&mut self.colors, &mut rows);
        self.first_row = true;
        Some(
            PixelBlock {
                x_left: self.x_left,
                x_right: self.x_right,
                y_top: self.y_top,
                y_bottom: self.y_bottom,
                colors: rows,
            },
        )
    }
}

/// The block stage over a row stage: each call of [`next`](Self::next)
/// pulls rows until one closes a block or the rows end.
#[derive(Debug)]
pub struct BlockIterator {
    rows: RowIterator,
    block: BlockCollector,
}

impl BlockIterator {
    /// The rows that have not been pulled yet.
    pub closed spec fn remaining(&self) -> Seq<RowView> {
        self.rows.output()
    }

    /// The block being built from the rows pulled so far.
    pub closed spec fn pending(&self) -> Option<BlockView> {
        self.block.pending()
    }

    /// The most rows that a block of this iterator holds.
    pub closed spec fn max_height(&self) -> nat {
        self.block.max_height()
    }

    /// The row stage and the collector are well-formed.
    pub closed spec fn wf(&self) -> bool {
        &&& self.rows.wf()
        &&& self.block.wf()
    }

    /// The blocks that the calls of [`next`](Self::next) from now on hand
    /// out, in order.
    pub open spec fn output(&self) -> Seq<BlockView> {
        blocks_from(self.pending(), self.remaining(), self.max_height())
    }

    /// An iterator over the blocks of `rows`, none of them higher than
    /// `max_height`. A limit of zero or above [`MAX_BLOCK_HEIGHT`] is
    /// refused.
    pub fn with_max_height(rows: RowIterator, max_height: usize) -> (blocks: Result<
        Self,
        CapacityError,
    >)
        requires
            rows.wf(),
        ensures
            match blocks {
                Ok(it) => {
                    &&& 1 <= max_height <= MAX_BLOCK_HEIGHT
                    &&& it.wf()
                    &&& it.max_height() == max_height
                    &&& it.pending() is None
                    &&& it.remaining() == rows.output()
                    &&& it.output() == blocks_of(rows.output(), max_height as nat)
                },
                Err(CapacityError::Zero) => max_height == 0,
                Err(CapacityError::TooLarge) => max_height > MAX_BLOCK_HEIGHT,
            },
    {
        match BlockCollector::with_max_height(max_height) {
            Ok(block) => Ok(BlockIterator { rows, block }),
            Err(refused) => Err(refused),
        }
    }

    /// The next block, or `None` when the rows are used up and the last
    /// block has been handed out.
    ///
    /// The call pulls rows only until one closes a block: that row is then
    /// the pending block, and the rows behind it are still to come. Where no
    /// row closes the block, the rows are used up and nothing is pending.
    pub fn next(&mut self) -> (block: Option<PixelBlock>)
        requires
            old(self).wf(),
        ensures
            final(self).wf(),
            final(self).max_height() == old(self).max_height(),
            match block {
                Some(b) => {
                    &&& old(self).output().len() > 0
                    &&& b@ == old(self).output().first()
                    &&& b@.well_formed(old(self).max_height())
                    &&& final(self).output() == old(self).output().drop_first()
                },
                None => {
                    &&& old(self).output().len() == 0
                    &&& final(self).output().len() == 0
                },
            },
            final(self).remaining().len() <= old(self).remaining().len(),
            final(self).remaining() == old(self).remaining().skip(
                old(self).remaining().len() - final(self).remaining().len(),
            ),
            match final(self).pending() {
                Some(stack) => {
                    &&& block is Some
                    &&& final(self).remaining().len() < old(self).remaining().len()
                    &&& stack == BlockView::single(
                        old(self).remaining()[old(self).remaining().len()
                            - final(self).remaining().len() - 1],
                    )
                },
                None => final(self).remaining().len() == 0,
            },
    {
        loop
            invariant
                self.wf(),
                self.max_height() == old(self).max_height(),
                self.output() == old(self).output(),
                self.remaining().len() <= old(self).remaining().len(),
                self.remaining() == old(self).remaining().skip(
                    old(self).remaining().len() - self.remaining().len(),
                ),
            decreases self.remaining().len(),
        {
            match self.rows.next() {
                None => {
                    let block = self.block.finish();
                    proof {
                        if block is Some {
                            assert(old(self).output().drop_first() =~= Seq::<BlockView>::empty());
                        }
                    }
                    return block;
                },
                Some(row) => {
                    proof {
                        assert(self.remaining() =~= old(self).remaining().skip(
                            old(self).remaining().len() - self.remaining().len(),
                        ));
                        assert(row@ == old(self).remaining()[old(self).remaining().len()
                            - self.remaining().len() - 1]);
                    }
                    let block = self.block.push(row);
                    if block.is_some() {
                        proof {
                            assert(old(self).output().drop_first() =~= self.output());
                        }
                        return block;
                    }
                },
            }
        }
    }
}

/// Batches `rows` into blocks of up to [`MAX_BLOCK_HEIGHT`] rows.
pub fn to_blocks(rows: RowIterator) -> (blocks: BlockIterator)
    requires
        rows.wf(),
    ensures
        blocks.wf(),
        blocks.max_height() == MAX_BLOCK_HEIGHT,
        blocks.pending() is None,
        blocks.remaining() == rows.output(),
        blocks.output() == blocks_of(rows.output(), MAX_BLOCK_HEIGHT as nat),
{
    BlockIterator { rows, block: BlockCollector::new() }
}

} // verus!
