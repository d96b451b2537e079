//! Pixels, rows and blocks, and the mathematical values they stand for.

use crate::buffer::{
    block_rows, block_rows_get, block_rows_len, row_colors, row_colors_to_vec, BlockColors,
    RowColors,
};
use vstd::prelude::*;

verus! {

/// The most colour words a row can hold.
pub const MAX_ROW_WIDTH: usize = 240;

/// The most rows a block can hold.
pub const MAX_BLOCK_HEIGHT: usize = 10;

/// Why a width or height limit was refused.
#[derive(Clone, Copy, Debug, PartialEq, Eq, Structural)]
pub enum CapacityError {
    /// The limit is zero: not a single item would fit.
    Zero,
    /// The limit is above what the buffer holds.
    TooLarge,
}

/// One pixel to write: a position on the display and a packed 16-bit colour,
/// which is passed on as it is.
#[derive(Clone, Copy, Debug, PartialEq, Eq, Structural)]
pub struct Pixel {
    pub x: u16,
    pub y: u16,
    pub color: u16,
}

/// A run of pixels on one display line, from `x_left` to `x_right`
/// inclusive, with one colour word for each.
#[derive(Debug)]
pub struct PixelRow {
    pub x_left: u16,
    pub x_right: u16,
    pub y: u16,
    pub colors: RowColors,
}

/// A stack of rows with the same horizontal extent on the lines `y_top` to
/// `y_bottom` inclusive.
#[derive(Debug)]
pub struct PixelBlock {
    pub x_left: u16,
    pub x_right: u16,
    pub y_top: u16,
    pub y_bottom: u16,
    pub colors: BlockColors,
}

/// What a [`PixelRow`] stands for.
pub ghost struct RowView {
    pub x_left: u16,
    pub x_right: u16,
    pub y: u16,
    pub colors: Seq<u16>,
}

/// What a [`PixelBlock`] stands for.
pub ghost struct BlockView {
    pub x_left: u16,
    pub x_right: u16,
    pub y_top: u16,
    pub y_bottom: u16,
    pub rows: Seq<Seq<u16>>,
}

impl RowView {
    /// The row that holds `pixel` and nothing else.
    pub open spec fn single(pixel: Pixel) -> RowView {
        RowView { x_left: pixel.x, x_right: pixel.x, y: pixel.y, colors: seq![pixel.color] }
    }

    /// Whether `pixel` continues this row: it lies directly to the right of
    /// the row's last pixel, on the same line, and the row holds fewer than
    /// `max_width` colours.
    pub open spec fn accepts(self, pixel: Pixel, max_width: nat) -> bool {
        &&& pixel.x == self.x_right + 1
        &&& pixel.y == self.y
        &&& self.colors.len() < max_width
    }

    /// This row with `pixel` added at its right end.
    pub open spec fn extended(self, pixel: Pixel) -> RowView {
        RowView {
            x_left: self.x_left,
            x_right: pixel.x,
            y: self.y,
            colors: self.colors.push(pixel.color),
        }
    }

    /// A row has one colour for each position from `x_left` to `x_right`,
    /// and at most `max_width` of them.
    pub open spec fn well_formed(self, max_width: nat) -> bool {
        &&& self.x_left <= self.x_right
        &&& self.colors.len() == self.x_right - self.x_left + 1
        &&& self.colors.len() <= max_width
    }

    /// The pixel that colour `i` of this row belongs to.
    pub open spec fn pixel(self, i: int) -> Pixel {
        Pixel { x: (self.x_left + i) as u16, y: self.y, color: self.colors[i] }
    }

    /// The pixels that this row writes, left to right.
    pub open spec fn pixels(self) -> Seq<Pixel> {
        Seq::new(self.colors.len(), |i: int| self.pixel(i))
    }
}

impl BlockView {
    /// The block that holds `row` and nothing else.
    pub open spec fn single(row: RowView) -> BlockView {
        BlockView {
            x_left: row.x_left,
            x_right: row.x_right,
            y_top: row.y,
            y_bottom: row.y,
            rows: seq![row.colors],
        }
    }

    /// Whether `row` continues this block: it lies on the line below the
    /// block's last row, has the block's horizontal extent, and the block
    /// holds fewer than `max_height` rows.
    pub open spec fn accepts(self, row: RowView, max_height: nat) -> bool {
        &&& row.y == self.y_bottom + 1
        &&& row.x_left == self.x_left
        &&& row.x_right == self.x_right
        &&& self.rows.len() < max_height
    }

    /// This block with `row` added at its bottom.
    pub open spec fn extended(self, row: RowView) -> BlockView {
        BlockView {
            x_left: self.x_left,
            x_right: self.x_right,
            y_top: self.y_top,
            y_bottom: row.y,
            rows: self.rows.push(row.colors),
        }
    }

    /// A block has one row for each line from `y_top` to `y_bottom`, and at
    /// most `max_height` of them.
    pub open spec fn well_formed(self, max_height: nat) -> bool {
        &&& self.y_top <= self.y_bottom
        &&& self.rows.len() == self.y_bottom - self.y_top + 1
        &&& self.rows.len() <= max_height
    }

    /// Every row of the block has one colour for each position from
    /// `x_left` to `x_right`.
    pub open spec fn filled(self) -> bool {
        forall|i: int|
            0 <= i < self.rows.len() ==> (#[trigger] self.rows[i]).len() == self.x_right
                - self.x_left + 1
    }

    /// Row `i` of this block, counted from the top: it has the block's
    /// horizontal extent.
    pub open spec fn row(self, i: int) -> RowView {
        RowView {
            x_left: self.x_left,
            x_right: self.x_right,
            y: (self.y_top + i) as u16,
            colors: self.rows[i],
        }
    }

    /// The rows that this block writes, top to bottom.
    pub open spec fn all_rows(self) -> Seq<RowView> {
        Seq::new(self.rows.len(), |i: int| self.row(i))
    }
}

impl View for PixelRow {
    type V = RowView;

    open spec fn view(&self) -> RowView {
        RowView {
            x_left: self.x_left,
            x_right: self.x_right,
            y: self.y,
            colors: row_colors(self.colors),
        }
    }
}

impl View for PixelBlock {
    type V = BlockView;

    open spec fn view(&self) -> BlockView {
        BlockView {
            x_left: self.x_left,
            x_right: self.x_right,
            y_top: self.y_top,
            y_bottom: self.y_bottom,
            rows: block_rows(self.colors),
        }
    }
}

impl PixelRow {
    /// The colour words of the row in the order in which they are written:
    /// left to right.
    pub fn color_words(&self) -> (words: Vec<u16>)
        ensures
            words@ == self@.colors,
    {
        row_colors_to_vec(&self.colors)
    }
}

impl PixelBlock {
    /// The colour words of the block in the order in which they are
    /// written: row after row from the top, each row left to right.
    pub fn color_words(&self) -> (words: Vec<u16>)
        ensures
            words@ == self@.rows.flatten(),
    {
        let ghost rows = block_rows(self.colors);
        let mut words: Vec<u16> = Vec::new();
        let height = block_rows_len(&self.colors);
        let mut i: usize = 0;
        while i < height
            invariant
                rows == block_rows(self.colors),
                height == rows.len(),
                i <= height,
                words@ == rows.take(i as int).flatten(),
            decreases height - i,
        {
            let mut row = row_colors_to_vec(block_rows_get(&self.colors, i));
            proof {
                rows.take(i as int).lemma_flatten_push(rows[i as int]);
                assert(rows.take(i as int).push(rows[i as int]) =~= rows.take(i + 1));
            }
            words.append(&mut row);
            i = i + 1;
        }
        assert(rows.take(height as int) =~= rows);
        words
    }
}

} // verus!
