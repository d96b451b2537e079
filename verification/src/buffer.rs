//! The fixed-capacity buffers that hold the colours of a row and the rows of
//! a block.
//!
//! Both are `heapless::Vec`s, which live on the stack and never allocate.
//! Nothing in this module is proved: it states what the `heapless` crate
//! does, and the rest of the crate is verified against these statements.

use vstd::prelude::*;

verus! {

/// `heapless::Vec<T, N>`, a vector of at most `N` items stored inline.
/// Its fields are private to `heapless`; values are read through
/// [`row_colors`] and [`block_rows`].
#[verifier::external_type_specification]
#[verifier::external_body]
#[verifier::reject_recursive_types(T)]
pub struct ExHeaplessVec<T, const N: usize>(heapless::Vec<T, N>);

/// The colour words of one row, left to right.
pub type RowColors = heapless::Vec<u16, 240>;

/// The rows of one block, top to bottom.
pub type BlockColors = heapless::Vec<heapless::Vec<u16, 240>, 10>;

/// The items that a row buffer holds, in order.
pub uninterp spec fn row_colors(colors: heapless::Vec<u16, 240>) -> Seq<u16>;

/// The rows that a block buffer holds, in order, each as its colour words.
pub uninterp spec fn block_rows(rows: heapless::Vec<heapless::Vec<u16, 240>, 10>) -> Seq<Seq<u16>>;

/// `heapless::Vec::new` for a row buffer: the new buffer is empty.
#[verifier::external_body]
pub(crate) fn row_colors_new() -> (colors: RowColors)
    ensures
        row_colors(colors) == Seq::<u16>::empty(),
{
    heapless::Vec::new()
}

/// `heapless::Vec::push` on a row buffer. While the buffer holds fewer than
/// its 240 items the colour is appended and `Ok` comes back; a full buffer
/// is left as it was and hands the colour back in `Err`.
#[verifier::external_body]
pub(crate) fn row_colors_push(colors: &mut RowColors, color: u16) -> (res: Result<(), u16>)
    ensures
        res is Ok <==> row_colors(*old(colors)).len() < 240,
        res is Ok ==> row_colors(*final(colors)) == row_colors(*old(colors)).push(color),
        res matches Err(back) ==> back == color && row_colors(*final(colors)) == row_colors(
            *old(colors),
        ),
{
    colors.push(color)
}

/// `heapless::Vec::new` for a block buffer: the new buffer is empty.
#[verifier::external_body]
pub(crate) fn block_rows_new() -> (rows: BlockColors)
    ensures
        block_rows(rows) == Seq::<Seq<u16>>::empty(),
{
    heapless::Vec::new()
}

/// `heapless::Vec::push` on a block buffer. While the buffer holds fewer
/// than its 10 rows the row is appended and `Ok` comes back; a full buffer is
/// left as it was and hands the row back in `Err`.
#[verifier::external_body]
pub(crate) fn block_rows_push(rows: &mut BlockColors, row: RowColors) -> (res: Result<
    (),
    RowColors,
>)
    ensures
        res is Ok <==> block_rows(*old(rows)).len() < 10,
        res is Ok ==> block_rows(*final(rows)) == block_rows(*old(rows)).push(row_colors(row)),
        res matches Err(back) ==> back == row && block_rows(*final(rows)) == block_rows(
            *old(rows),
        ),
{
    rows.push(row)
}

/// `heapless::Vec::as_slice` on a row buffer, copied into a `Vec`: the
/// buffer's colours in order.
#[verifier::external_body]
pub(crate) fn row_colors_to_vec(colors: &RowColors) -> (words: Vec<u16>)
    ensures
        words@ == row_colors(*colors),
{
    colors.as_slice().to_vec()
}

/// `heapless::Vec::len` on a block buffer: the number of rows it holds.
#[verifier::external_body]
pub(crate) fn block_rows_len(rows: &BlockColors) -> (len: usize)
    ensures
        len == block_rows(*rows).len(),
{
    rows.len()
}

/// `heapless::Vec::as_slice` on a block buffer, indexed: row `i` of the
/// buffer. The index must be below the number of rows.
#[verifier::external_body]
pub(crate) fn block_rows_get(rows: &BlockColors, i: usize) -> (row: &RowColors)
    requires
        i < block_rows(*rows).len(),
    ensures
        row_colors(*row) == block_rows(*rows)[i as int],
{
    &rows.as_slice()[i]
}

} // verus!
