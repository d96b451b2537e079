//! What holds of the block stage, for every stream of rows, and of both
//! stages together.
//!
//! The stage is defined by [`blocks_of`]. The proofs here say what that
//! definition amounts to: no row is lost, changed or reordered, every block
//! is well-formed within the height limit, neighbours in the output could
//! not have been merged, and no other list of blocks has these properties.

use crate::blocks::{blocks_from, blocks_of};
use crate::concat::{lemma_flat_map_cons, lemma_flat_map_empty, lemma_flat_map_single};
use crate::pixel::{BlockView, Pixel, RowView};
use crate::row_laws::{lemma_rows_keep_colors, pixel_colors, row_colors_of};
use crate::rows::rows_of;
use vstd::prelude::*;

verus! {

/// The rows that `blocks` write, one block after the other.
pub open spec fn block_rows_of(blocks: Seq<BlockView>) -> Seq<RowView> {
    blocks.flat_map(|block: BlockView| block.all_rows())
}

/// The colours of `blocks` one after the other, each block row by row.
pub open spec fn block_colors_of(blocks: Seq<BlockView>) -> Seq<u16> {
    blocks.flat_map(|block: BlockView| block.rows.flatten())
}

proof fn lemma_extended_rows(block: BlockView, row: RowView, max_height: nat)
    requires
        block.well_formed(max_height),
        block.accepts(row, max_height),
    ensures
        block.extended(row).well_formed(max_height),
        block.extended(row).all_rows() == block.all_rows().push(row),
{
    let higher = block.extended(row);
    assert forall|i: int| 0 <= i < higher.rows.len() implies higher.all_rows()[i]
        == block.all_rows().push(row)[i] by {
        if i < block.rows.len() {
            assert(higher.row(i) == block.row(i));
        } else {
            assert(higher.row(i) == row);
        }
    }
    assert(higher.all_rows() =~= block.all_rows().push(row));
}

proof fn lemma_single_rows(row: RowView, max_height: nat)
    requires
        1 <= max_height,
    ensures
        BlockView::single(row).well_formed(max_height),
        BlockView::single(row).all_rows() == seq![row],
{
    assert(BlockView::single(row).row(0) == row);
    assert(BlockView::single(row).all_rows() =~= seq![row]);
}

proof fn lemma_blocks_from_keep_rows(
    pending: Option<BlockView>,
    rows: Seq<RowView>,
    max_height: nat,
)
    requires
        1 <= max_height,
        pending matches Some(block) ==> block.well_formed(max_height),
    ensures
        block_rows_of(blocks_from(pending, rows, max_height)) == match pending {
            Some(block) => block.all_rows(),
            None => Seq::empty(),
        } + rows,
    decreases rows.len(),
{
    let written = |block: BlockView| block.all_rows();
    if rows.len() == 0 {
        match pending {
            Some(block) => {
                lemma_flat_map_single(block, written);
                assert(block.all_rows() + rows =~= block.all_rows());
            },
            None => {
                lemma_flat_map_empty::<BlockView, RowView>(written);
                assert(Seq::<RowView>::empty() + rows =~= Seq::<RowView>::empty());
            },
        }
    } else {
        let row = rows.first();
        let rest = rows.drop_first();
        assert(rows =~= seq![row] + rest);
        lemma_single_rows(row, max_height);
        match pending {
            Some(block) => {
                if block.accepts(row, max_height) {
                    lemma_extended_rows(block, row, max_height);
                    lemma_blocks_from_keep_rows(Some(block.extended(row)), rest, max_height);
                    assert(block.all_rows().push(row) + rest =~= block.all_rows() + rows);
                } else {
                    let tail = blocks_from(Some(BlockView::single(row)), rest, max_height);
                    lemma_blocks_from_keep_rows(Some(BlockView::single(row)), rest, max_height);
                    lemma_flat_map_cons(block, tail, written);
                    assert(block.all_rows() + (seq![row] + rest) =~= block.all_rows() + rows);
                }
            },
            None => {
                lemma_blocks_from_keep_rows(Some(BlockView::single(row)), rest, max_height);
                assert(seq![row] + rest =~= Seq::<RowView>::empty() + rows);
            },
        }
    }
}

/// The blocks write the rows that came in, in the order of arrival, and
/// each row of a block has the block's horizontal extent: the rows of the
/// blocks, one block after the other, are the input.
pub proof fn lemma_blocks_keep_rows(rows: Seq<RowView>, max_height: nat)
    requires
        1 <= max_height,
    ensures
        block_rows_of(blocks_of(rows, max_height)) == rows,
{
    lemma_blocks_from_keep_rows(None, rows, max_height);
    assert(Seq::<RowView>::empty() + rows =~= rows);
}

proof fn lemma_blocks_from_well_formed(
    pending: Option<BlockView>,
    rows: Seq<RowView>,
    max_height: nat,
)
    requires
        1 <= max_height,
        pending matches Some(block) ==> block.well_formed(max_height),
    ensures
        forall|i: int|
            0 <= i < blocks_from(pending, rows, max_height).len() ==> (#[trigger] blocks_from(
                pending,
                rows,
                max_height,
            )[i]).well_formed(max_height),
    decreases rows.len(),
{
    let blocks = blocks_from(pending, rows, max_height);
    if rows.len() > 0 {
        let row = rows.first();
        let rest = rows.drop_first();
        lemma_single_rows(row, max_height);
        match pending {
            Some(block) => {
                if block.accepts(row, max_height) {
                    lemma_extended_rows(block, row, max_height);
                    lemma_blocks_from_well_formed(Some(block.extended(row)), rest, max_height);
                    assert(blocks == blocks_from(Some(block.extended(row)), rest, max_height));
                } else {
                    let tail = blocks_from(Some(BlockView::single(row)), rest, max_height);
                    lemma_blocks_from_well_formed(Some(BlockView::single(row)), rest, max_height);
                    assert forall|i: int| 0 <= i < blocks.len() implies (
                    #[trigger] blocks[i]).well_formed(max_height) by {
                        if i > 0 {
                            assert(blocks[i] == tail[i - 1]);
                        }
                    }
                }
            },
            None => {
                lemma_blocks_from_well_formed(Some(BlockView::single(row)), rest, max_height);
                assert(blocks == blocks_from(Some(BlockView::single(row)), rest, max_height));
            },
        }
    } else {
        match pending {
            Some(block) => {
                assert(blocks[0] == block);
            },
            None => {},
        }
    }
}

/// Every block has one row for each line from its top to its bottom, and no
/// more rows than the limit.
pub proof fn lemma_blocks_well_formed(rows: Seq<RowView>, max_height: nat)
    requires
        1 <= max_height,
    ensures
        forall|i: int|
            0 <= i < blocks_of(rows, max_height).len() ==> (#[trigger] blocks_of(
                rows,
                max_height,
            )[i]).well_formed(max_height),
{
    lemma_blocks_from_well_formed(None, rows, max_height);
}

proof fn lemma_blocks_from_first(pending: BlockView, rows: Seq<RowView>, max_height: nat)
    requires
        1 <= max_height,
        pending.well_formed(max_height),
    ensures
        blocks_from(Some(pending), rows, max_height).len() > 0,
        blocks_from(Some(pending), rows, max_height).first().row(0) == pending.row(0),
    decreases rows.len(),
{
    if rows.len() > 0 {
        let row = rows.first();
        if pending.accepts(row, max_height) {
            lemma_extended_rows(pending, row, max_height);
            lemma_blocks_from_first(pending.extended(row), rows.drop_first(), max_height);
            assert(pending.extended(row).row(0) == pending.row(0));
        }
    }
}

proof fn lemma_blocks_from_maximal(
    pending: Option<BlockView>,
    rows: Seq<RowView>,
    max_height: nat,
)
    requires
        1 <= max_height,
        pending matches Some(block) ==> block.well_formed(max_height),
    ensures
        forall|i: int, j: int|
            0 <= i && j == i + 1 && j < blocks_from(pending, rows, max_height).len() ==> !(
            #[trigger] blocks_from(pending, rows, max_height)[i]).accepts(
                (#[trigger] blocks_from(pending, rows, max_height)[j]).row(0),
                max_height,
            ),
    decreases rows.len(),
{
    let blocks = blocks_from(pending, rows, max_height);
    if rows.len() > 0 {
        let row = rows.first();
        let rest = rows.drop_first();
        lemma_single_rows(row, max_height);
        match pending {
            Some(block) => {
                if block.accepts(row, max_height) {
                    lemma_extended_rows(block, row, max_height);
                    lemma_blocks_from_maximal(Some(block.extended(row)), rest, max_height);
                    assert(blocks == blocks_from(Some(block.extended(row)), rest, max_height));
                } else {
                    let tail = blocks_from(Some(BlockView::single(row)), rest, max_height);
                    lemma_blocks_from_maximal(Some(BlockView::single(row)), rest, max_height);
                    lemma_blocks_from_first(BlockView::single(row), rest, max_height);
                    assert(blocks == seq![block] + tail);
                    assert forall|i: int, j: int|
                        0 <= i && j == i + 1 && j < blocks.len() implies !(
                    #[trigger] blocks[i]).accepts((#[trigger] blocks[j]).row(0), max_height) by {
                        if i == 0 {
                            assert(blocks[0] == block);
                            assert(blocks[1] == tail.first());
                            assert(BlockView::single(row).row(0) == row);
                        } else {
                            assert(blocks[i] == tail[i - 1]);
                            assert(blocks[j] == tail[j - 1]);
                        }
                    }
                }
            },
            None => {
                lemma_blocks_from_maximal(Some(BlockView::single(row)), rest, max_height);
                assert(blocks == blocks_from(Some(BlockView::single(row)), rest, max_height));
            },
        }
    } else {
        assert(blocks.len() <= 1);
    }
}

/// No stack is split: of two blocks that follow each other, the second does
/// not start with a row that the first would have taken.
pub proof fn lemma_blocks_maximal(rows: Seq<RowView>, max_height: nat)
    requires
        1 <= max_height,
    ensures
        forall|i: int, j: int|
            0 <= i && j == i + 1 && j < blocks_of(rows, max_height).len() ==> !(
            #[trigger] blocks_of(rows, max_height)[i]).accepts(
                (#[trigger] blocks_of(rows, max_height)[j]).row(0),
                max_height,
            ),
{
    lemma_blocks_from_maximal(None, rows, max_height);
}

proof fn lemma_blocks_from_keep_colors(
    pending: Option<BlockView>,
    rows: Seq<RowView>,
    max_height: nat,
)
    ensures
        block_colors_of(blocks_from(pending, rows, max_height)) == match pending {
            Some(block) => block.rows.flatten(),
            None => Seq::empty(),
        } + row_colors_of(rows),
    decreases rows.len(),
{
    let colors = |block: BlockView| block.rows.flatten();
    let row_colors = |row: RowView| row.colors;
    if rows.len() == 0 {
        lemma_flat_map_empty::<RowView, u16>(row_colors);
        assert(rows =~= Seq::<RowView>::empty());
        match pending {
            Some(block) => {
                lemma_flat_map_single(block, colors);
                assert(block.rows.flatten() + Seq::<u16>::empty() =~= block.rows.flatten());
            },
            None => {
                lemma_flat_map_empty::<BlockView, u16>(colors);
            },
        }
    } else {
        let row = rows.first();
        let rest = rows.drop_first();
        assert(rows =~= seq![row] + rest);
        lemma_flat_map_cons(row, rest, row_colors);
        seq![row.colors].lemma_flatten_one_element();
        match pending {
            Some(block) => {
                if block.accepts(row, max_height) {
                    lemma_blocks_from_keep_colors(Some(block.extended(row)), rest, max_height);
                    block.rows.lemma_flatten_push(row.colors);
                    assert((block.rows.flatten() + row.colors) + row_colors_of(rest)
                        =~= block.rows.flatten() + row_colors_of(rows));
                } else {
                    let tail = blocks_from(Some(BlockView::single(row)), rest, max_height);
                    lemma_blocks_from_keep_colors(Some(BlockView::single(row)), rest, max_height);
                    lemma_flat_map_cons(block, tail, colors);
                }
            },
            None => {
                lemma_blocks_from_keep_colors(Some(BlockView::single(row)), rest, max_height);
                assert(row.colors + row_colors_of(rest) =~= Seq::<u16>::empty() + row_colors_of(
                    rows,
                ));
            },
        }
    }
}

/// Both stages together lose no colour and keep the order: the colours of
/// the blocks, block after block and row after row, are the colours of the
/// pixels.
pub proof fn lemma_blocks_keep_colors(pixels: Seq<Pixel>, max_width: nat, max_height: nat)
    ensures
        block_colors_of(blocks_of(rows_of(pixels, max_width), max_height)) == pixel_colors(pixels),
{
    lemma_blocks_from_keep_colors(None, rows_of(pixels, max_width), max_height);
    lemma_rows_keep_colors(pixels, max_width);
    assert(Seq::<u16>::empty() + pixel_colors(pixels) =~= pixel_colors(pixels));
}

proof fn lemma_blocks_from_filled(
    pending: Option<BlockView>,
    rows: Seq<RowView>,
    max_width: nat,
    max_height: nat,
)
    requires
        forall|i: int| 0 <= i < rows.len() ==> (#[trigger] rows[i]).well_formed(max_width),
        pending matches Some(block) ==> block.filled(),
    ensures
        forall|i: int|
            0 <= i < blocks_from(pending, rows, max_height).len() ==> (#[trigger] blocks_from(
                pending,
                rows,
                max_height,
            )[i]).filled(),
    decreases rows.len(),
{
    let blocks = blocks_from(pending, rows, max_height);
    if rows.len() > 0 {
        let row = rows.first();
        let rest = rows.drop_first();
        assert(row.well_formed(max_width));
        assert forall|i: int| 0 <= i < rest.len() implies (#[trigger] rest[i]).well_formed(
            max_width,
        ) by {
            assert(rest[i] == rows[i + 1]);
        }
        assert(BlockView::single(row).filled());
        match pending {
            Some(block) => {
                if block.accepts(row, max_height) {
                    let higher = block.extended(row);
                    assert forall|i: int| 0 <= i < higher.rows.len() implies (
                    #[trigger] higher.rows[i]).len() == higher.x_right - higher.x_left + 1 by {
                        if i < block.rows.len() {
                            assert(higher.rows[i] == block.rows[i]);
                        }
                    }
                    lemma_blocks_from_filled(Some(higher), rest, max_width, max_height);
                    assert(blocks == blocks_from(Some(higher), rest, max_height));
                } else {
                    let tail = blocks_from(Some(BlockView::single(row)), rest, max_height);
                    lemma_blocks_from_filled(
                        Some(BlockView::single(row)),
                        rest,
                        max_width,
                        max_height,
                    );
                    assert forall|i: int| 0 <= i < blocks.len() implies (
                    #[trigger] blocks[i]).filled() by {
                        if i > 0 {
                            assert(blocks[i] == tail[i - 1]);
                        }
                    }
                }
            },
            None => {
                lemma_blocks_from_filled(
                    Some(BlockView::single(row)),
                    rest,
                    max_width,
                    max_height,
                );
                assert(blocks == blocks_from(Some(BlockView::single(row)), rest, max_height));
            },
        }
    } else {
        match pending {
            Some(block) => {
                assert(blocks[0] == block);
            },
            None => {},
        }
    }
}

/// Where every row that comes in is well-formed, every row of every block
/// has one colour for each position of the block's extent.
pub proof fn lemma_blocks_filled(rows: Seq<RowView>, max_width: nat, max_height: nat)
    requires
        forall|i: int| 0 <= i < rows.len() ==> (#[trigger] rows[i]).well_formed(max_width),
    ensures
        forall|i: int|
            0 <= i < blocks_of(rows, max_height).len() ==> (#[trigger] blocks_of(
                rows,
                max_height,
            )[i]).filled(),
{
    lemma_blocks_from_filled(None, rows, max_width, max_height);
}

/// Whether `blocks` could stand as they are: each is well-formed within
/// the limit, and of two that follow each other the second does not start
/// with a row that the first would have taken.
pub open spec fn blocks_settled(blocks: Seq<BlockView>, max_height: nat) -> bool {
    &&& forall|i: int| 0 <= i < blocks.len() ==> (#[trigger] blocks[i]).well_formed(max_height)
    &&& forall|i: int, j: int|
        0 <= i && j == i + 1 && j < blocks.len() ==> !(#[trigger] blocks[i]).accepts(
            (#[trigger] blocks[j]).row(0),
            max_height,
        )
}

proof fn lemma_blocks_settled_tail(block: BlockView, tail: Seq<BlockView>, max_height: nat)
    requires
        blocks_settled(seq![block] + tail, max_height),
    ensures
        blocks_settled(tail, max_height),
        block.well_formed(max_height),
        tail.len() > 0 ==> !block.accepts(tail[0].row(0), max_height),
{
    let blocks = seq![block] + tail;
    assert(blocks[0] == block);
    assert forall|i: int| 0 <= i < tail.len() implies (#[trigger] tail[i]).well_formed(
        max_height,
    ) by {
        assert(blocks[i + 1] == tail[i]);
    }
    assert forall|i: int, j: int| 0 <= i && j == i + 1 && j < tail.len() implies !(
    #[trigger] tail[i]).accepts((#[trigger] tail[j]).row(0), max_height) by {
        assert(blocks[i + 1] == tail[i]);
        assert(blocks[j + 1] == tail[j]);
    }
    if tail.len() > 0 {
        assert(blocks[1] == tail[0]);
    }
}

proof fn lemma_blocks_from_rebuild(
    partial: BlockView,
    block: BlockView,
    tail: Seq<BlockView>,
    max_height: nat,
)
    requires
        1 <= max_height,
        blocks_settled(seq![block] + tail, max_height),
        partial.well_formed(max_height),
        partial.x_left == block.x_left,
        partial.x_right == block.x_right,
        partial.y_top == block.y_top,
        partial.rows.len() <= block.rows.len(),
        partial.rows == block.rows.take(partial.rows.len() as int),
    ensures
        blocks_from(
            Some(partial),
            block.all_rows().skip(partial.rows.len() as int) + block_rows_of(tail),
            max_height,
        ) == seq![block] + tail,
    decreases tail.len(), block.rows.len() - partial.rows.len(),
{
    let written = |block: BlockView| block.all_rows();
    let taken = partial.rows.len() as int;
    let rows = block.all_rows().skip(taken) + block_rows_of(tail);
    lemma_blocks_settled_tail(block, tail, max_height);
    if taken < block.rows.len() {
        let row = block.row(taken);
        assert(rows.first() == row);
        assert(rows.drop_first() =~= block.all_rows().skip(taken + 1) + block_rows_of(tail));
        assert(partial.accepts(row, max_height));
        lemma_extended_rows(partial, row, max_height);
        assert(partial.extended(row).rows =~= block.rows.take(taken + 1));
        lemma_blocks_from_rebuild(partial.extended(row), block, tail, max_height);
    } else {
        assert(partial.rows =~= block.rows);
        assert(partial == block);
        assert(block.all_rows().skip(taken) =~= Seq::<RowView>::empty());
        if tail.len() == 0 {
            lemma_flat_map_empty::<BlockView, RowView>(written);
            assert(tail =~= Seq::<BlockView>::empty());
            assert(rows =~= Seq::<RowView>::empty());
            assert(seq![block] + tail =~= seq![block]);
        } else {
            let next = tail.first();
            let rest = tail.drop_first();
            assert(tail =~= seq![next] + rest);
            lemma_flat_map_cons(next, rest, written);
            let row = next.row(0);
            assert(rows =~= next.all_rows() + block_rows_of(rest));
            assert(rows.first() == row);
            assert(rows.drop_first() =~= next.all_rows().skip(1) + block_rows_of(rest));
            lemma_single_rows(row, max_height);
            assert(BlockView::single(row).rows =~= next.rows.take(1));
            lemma_blocks_from_rebuild(BlockView::single(row), next, rest, max_height);
        }
    }
}

/// The block stage undoes the writing out of blocks: whatever list of
/// well-formed blocks is given, no two neighbours of which could be merged,
/// batching the rows that it writes gives that list again. So the blocks
/// of a row stream are the only such list that writes the stream.
pub proof fn lemma_blocks_unique(blocks: Seq<BlockView>, max_height: nat)
    requires
        1 <= max_height,
        blocks_settled(blocks, max_height),
    ensures
        blocks_of(block_rows_of(blocks), max_height) == blocks,
{
    let written = |block: BlockView| block.all_rows();
    if blocks.len() == 0 {
        assert(blocks =~= Seq::<BlockView>::empty());
        lemma_flat_map_empty::<BlockView, RowView>(written);
    } else {
        let block = blocks.first();
        let rest = blocks.drop_first();
        assert(blocks =~= seq![block] + rest);
        lemma_blocks_settled_tail(block, rest, max_height);
        lemma_flat_map_cons(block, rest, written);
        let rows = block_rows_of(blocks);
        let row = block.row(0);
        assert(rows =~= block.all_rows() + block_rows_of(rest));
        assert(rows.first() == row);
        assert(rows.drop_first() =~= block.all_rows().skip(1) + block_rows_of(rest));
        lemma_single_rows(row, max_height);
        assert(BlockView::single(row).rows =~= block.rows.take(1));
        lemma_blocks_from_rebuild(BlockView::single(row), block, rest, max_height);
    }
}

} // verus!
