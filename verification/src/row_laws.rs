//! What holds of the row stage, for every stream of pixels.
//!
//! The stage is defined by [`rows_of`]. The proofs here say what that
//! definition amounts to: no pixel is lost, moved or reordered, every row is
//! well-formed within the width limit, neighbours in the output could not
//! have been merged, and no other list of rows has these properties.

use crate::concat::{lemma_flat_map_cons, lemma_flat_map_empty, lemma_flat_map_single};
use crate::pixel::{Pixel, RowView};
use crate::rows::{rows_from, rows_of};
use vstd::prelude::*;

verus! {

/// The colours of `pixels`, in order.
pub open spec fn pixel_colors(pixels: Seq<Pixel>) -> Seq<u16> {
    pixels.map_values(|pixel: Pixel| pixel.color)
}

/// The colours of `rows` one after the other.
pub open spec fn row_colors_of(rows: Seq<RowView>) -> Seq<u16> {
    rows.flat_map(|row: RowView| row.colors)
}

/// The pixels that `rows` write, one row after the other.
pub open spec fn row_pixels_of(rows: Seq<RowView>) -> Seq<Pixel> {
    rows.flat_map(|row: RowView| row.pixels())
}

proof fn lemma_rows_from_keep_colors(pending: Option<RowView>, pixels: Seq<Pixel>, max_width: nat)
    ensures
        row_colors_of(rows_from(pending, pixels, max_width)) == match pending {
            Some(row) => row.colors,
            None => Seq::empty(),
        } + pixel_colors(pixels),
    decreases pixels.len(),
{
    let colors = |row: RowView| row.colors;
    if pixels.len() == 0 {
        assert(pixel_colors(pixels) =~= Seq::<u16>::empty());
        match pending {
            Some(row) => {
                lemma_flat_map_single(row, colors);
            },
            None => {
                lemma_flat_map_empty::<RowView, u16>(colors);
            },
        }
    } else {
        let pixel = pixels.first();
        let rest = pixels.drop_first();
        assert(pixel_colors(pixels) =~= seq![pixel.color] + pixel_colors(rest));
        match pending {
            Some(row) => {
                if row.accepts(pixel, max_width) {
                    lemma_rows_from_keep_colors(Some(row.extended(pixel)), rest, max_width);
                    assert(row.extended(pixel).colors + pixel_colors(rest) =~= row.colors
                        + pixel_colors(pixels));
                } else {
                    let tail = rows_from(Some(RowView::single(pixel)), rest, max_width);
                    lemma_rows_from_keep_colors(Some(RowView::single(pixel)), rest, max_width);
                    lemma_flat_map_cons(row, tail, colors);
                    assert(row.colors + (RowView::single(pixel).colors + pixel_colors(rest))
                        =~= row.colors + pixel_colors(pixels));
                }
            },
            None => {
                lemma_rows_from_keep_colors(Some(RowView::single(pixel)), rest, max_width);
                assert(RowView::single(pixel).colors + pixel_colors(rest) =~= Seq::<u16>::empty()
                    + pixel_colors(pixels));
            },
        }
    }
}

/// The rows lose no colour and keep the order: the colours of the rows,
/// one row after the other, are the colours of the pixels.
pub proof fn lemma_rows_keep_colors(pixels: Seq<Pixel>, max_width: nat)
    ensures
        row_colors_of(rows_of(pixels, max_width)) == pixel_colors(pixels),
{
    lemma_rows_from_keep_colors(None, pixels, max_width);
    assert(Seq::<u16>::empty() + pixel_colors(pixels) =~= pixel_colors(pixels));
}

proof fn lemma_extended_pixels(row: RowView, pixel: Pixel, max_width: nat)
    requires
        row.well_formed(max_width),
        row.accepts(pixel, max_width),
    ensures
        row.extended(pixel).well_formed(max_width),
        row.extended(pixel).pixels() == row.pixels().push(pixel),
{
    let longer = row.extended(pixel);
    assert forall|i: int| 0 <= i < longer.colors.len() implies longer.pixels()[i]
        == row.pixels().push(pixel)[i] by {
        if i < row.colors.len() {
            assert(longer.pixel(i) == row.pixel(i));
        } else {
            assert(longer.pixel(i) == pixel);
        }
    }
    assert(longer.pixels() =~= row.pixels().push(pixel));
}

proof fn lemma_single_pixels(pixel: Pixel, max_width: nat)
    requires
        1 <= max_width,
    ensures
        RowView::single(pixel).well_formed(max_width),
        RowView::single(pixel).pixels() == seq![pixel],
{
    assert(RowView::single(pixel).pixel(0) == pixel);
    assert(RowView::single(pixel).pixels() =~= seq![pixel]);
}

proof fn lemma_rows_from_keep_pixels(pending: Option<RowView>, pixels: Seq<Pixel>, max_width: nat)
    requires
        1 <= max_width,
        pending matches Some(row) ==> row.well_formed(max_width),
    ensures
        row_pixels_of(rows_from(pending, pixels, max_width)) == match pending {
            Some(row) => row.pixels(),
            None => Seq::empty(),
        } + pixels,
    decreases pixels.len(),
{
    let written = |row: RowView| row.pixels();
    if pixels.len() == 0 {
        match pending {
            Some(row) => {
                lemma_flat_map_single(row, written);
                assert(row.pixels() + pixels =~= row.pixels());
            },
            None => {
                lemma_flat_map_empty::<RowView, Pixel>(written);
                assert(Seq::<Pixel>::empty() + pixels =~= Seq::<Pixel>::empty());
            },
        }
    } else {
        let pixel = pixels.first();
        let rest = pixels.drop_first();
        assert(pixels =~= seq![pixel] + rest);
        lemma_single_pixels(pixel, max_width);
        match pending {
            Some(row) => {
                if row.accepts(pixel, max_width) {
                    lemma_extended_pixels(row, pixel, max_width);
                    lemma_rows_from_keep_pixels(Some(row.extended(pixel)), rest, max_width);
                    assert(row.pixels().push(pixel) + rest =~= row.pixels() + pixels);
                } else {
                    let tail = rows_from(Some(RowView::single(pixel)), rest, max_width);
                    lemma_rows_from_keep_pixels(Some(RowView::single(pixel)), rest, max_width);
                    lemma_flat_map_cons(row, tail, written);
                    assert(row.pixels() + (seq![pixel] + rest) =~= row.pixels() + pixels);
                }
            },
            None => {
                lemma_rows_from_keep_pixels(Some(RowView::single(pixel)), rest, max_width);
                assert(seq![pixel] + rest =~= Seq::<Pixel>::empty() + pixels);
            },
        }
    }
}

/// The rows write the pixels that came in, each at its own position and in
/// the order of arrival: the pixels of the rows, one row after the other,
/// are the input.
pub proof fn lemma_rows_keep_pixels(pixels: Seq<Pixel>, max_width: nat)
    requires
        1 <= max_width,
    ensures
        row_pixels_of(rows_of(pixels, max_width)) == pixels,
{
    lemma_rows_from_keep_pixels(None, pixels, max_width);
    assert(Seq::<Pixel>::empty() + pixels =~= pixels);
}

proof fn lemma_rows_from_well_formed(pending: Option<RowView>, pixels: Seq<Pixel>, max_width: nat)
    requires
        1 <= max_width,
        pending matches Some(row) ==> row.well_formed(max_width),
    ensures
        forall|i: int|
            0 <= i < rows_from(pending, pixels, max_width).len() ==> (#[trigger] rows_from(
                pending,
                pixels,
                max_width,
            )[i]).well_formed(max_width),
    decreases pixels.len(),
{
    let rows = rows_from(pending, pixels, max_width);
    if pixels.len() > 0 {
        let pixel = pixels.first();
        let rest = pixels.drop_first();
        lemma_single_pixels(pixel, max_width);
        match pending {
            Some(row) => {
                if row.accepts(pixel, max_width) {
                    lemma_extended_pixels(row, pixel, max_width);
                    lemma_rows_from_well_formed(Some(row.extended(pixel)), rest, max_width);
                    assert(rows == rows_from(Some(row.extended(pixel)), rest, max_width));
                } else {
                    let tail = rows_from(Some(RowView::single(pixel)), rest, max_width);
                    lemma_rows_from_well_formed(Some(RowView::single(pixel)), rest, max_width);
                    assert forall|i: int| 0 <= i < rows.len() implies (#[trigger] rows[i]).well_formed(
                        max_width,
                    ) by {
                        if i > 0 {
                            assert(rows[i] == tail[i - 1]);
                        }
                    }
                }
            },
            None => {
                lemma_rows_from_well_formed(Some(RowView::single(pixel)), rest, max_width);
                assert(rows == rows_from(Some(RowView::single(pixel)), rest, max_width));
            },
        }
    } else {
        match pending {
            Some(row) => {
                assert(rows[0] == row);
            },
            None => {},
        }
    }
}

/// Every row has one colour for each position from its left to its right
/// end, and no more colours than the limit.
pub proof fn lemma_rows_well_formed(pixels: Seq<Pixel>, max_width: nat)
    requires
        1 <= max_width,
    ensures
        forall|i: int|
            0 <= i < rows_of(pixels, max_width).len() ==> (#[trigger] rows_of(
                pixels,
                max_width,
            )[i]).well_formed(max_width),
{
    lemma_rows_from_well_formed(None, pixels, max_width);
}

proof fn lemma_rows_from_first(pending: RowView, pixels: Seq<Pixel>, max_width: nat)
    requires
        1 <= max_width,
        pending.well_formed(max_width),
    ensures
        rows_from(Some(pending), pixels, max_width).len() > 0,
        rows_from(Some(pending), pixels, max_width).first().pixel(0) == pending.pixel(0),
    decreases pixels.len(),
{
    if pixels.len() > 0 {
        let pixel = pixels.first();
        if pending.accepts(pixel, max_width) {
            lemma_extended_pixels(pending, pixel, max_width);
            lemma_rows_from_first(pending.extended(pixel), pixels.drop_first(), max_width);
        }
    }
}

proof fn lemma_rows_from_maximal(pending: Option<RowView>, pixels: Seq<Pixel>, max_width: nat)
    requires
        1 <= max_width,
        pending matches Some(row) ==> row.well_formed(max_width),
    ensures
        forall|i: int, j: int|
            0 <= i && j == i + 1 && j < rows_from(pending, pixels, max_width).len() ==> !(
            #[trigger] rows_from(pending, pixels, max_width)[i]).accepts(
                (#[trigger] rows_from(pending, pixels, max_width)[j]).pixel(0),
                max_width,
            ),
    decreases pixels.len(),
{
    let rows = rows_from(pending, pixels, max_width);
    if pixels.len() > 0 {
        let pixel = pixels.first();
        let rest = pixels.drop_first();
        lemma_single_pixels(pixel, max_width);
        match pending {
            Some(row) => {
                if row.accepts(pixel, max_width) {
                    lemma_extended_pixels(row, pixel, max_width);
                    lemma_rows_from_maximal(Some(row.extended(pixel)), rest, max_width);
                    assert(rows == rows_from(Some(row.extended(pixel)), rest, max_width));
                } else {
                    let tail = rows_from(Some(RowView::single(pixel)), rest, max_width);
                    lemma_rows_from_maximal(Some(RowView::single(pixel)), rest, max_width);
                    lemma_rows_from_first(RowView::single(pixel), rest, max_width);
                    assert(rows == seq![row] + tail);
                    assert forall|i: int, j: int|
                        0 <= i && j == i + 1 && j < rows.len() implies !(#[trigger] rows[i]).accepts(
                        (#[trigger] rows[j]).pixel(0),
                        max_width,
                    ) by {
                        if i == 0 {
                            assert(rows[0] == row);
                            assert(rows[1] == tail.first());
                            assert(RowView::single(pixel).pixel(0) == pixel);
                        } else {
                            assert(rows[i] == tail[i - 1]);
                            assert(rows[j] == tail[j - 1]);
                        }
                    }
                }
            },
            None => {
                lemma_rows_from_maximal(Some(RowView::single(pixel)), rest, max_width);
                assert(rows == rows_from(Some(RowView::single(pixel)), rest, max_width));
            },
        }
    } else {
        assert(rows.len() <= 1);
    }
}

/// No run is split: of two rows that follow each other, the second does not
/// start with a pixel that the first would have taken.
pub proof fn lemma_rows_maximal(pixels: Seq<Pixel>, max_width: nat)
    requires
        1 <= max_width,
    ensures
        forall|i: int, j: int|
            0 <= i && j == i + 1 && j < rows_of(pixels, max_width).len() ==> !(#[trigger] rows_of(
                pixels,
                max_width,
            )[i]).accepts((#[trigger] rows_of(pixels, max_width)[j]).pixel(0), max_width),
{
    lemma_rows_from_maximal(None, pixels, max_width);
}

/// Whether `rows` could stand as they are: each is well-formed within the
/// limit, and of two that follow each other the second does not start with
/// a pixel that the first would have taken.
pub open spec fn rows_settled(rows: Seq<RowView>, max_width: nat) -> bool {
    &&& forall|i: int| 0 <= i < rows.len() ==> (#[trigger] rows[i]).well_formed(max_width)
    &&& forall|i: int, j: int|
        0 <= i && j == i + 1 && j < rows.len() ==> !(#[trigger] rows[i]).accepts(
            (#[trigger] rows[j]).pixel(0),
            max_width,
        )
}

proof fn lemma_rows_settled_tail(row: RowView, tail: Seq<RowView>, max_width: nat)
    requires
        rows_settled(seq![row] + tail, max_width),
    ensures
        rows_settled(tail, max_width),
        row.well_formed(max_width),
        tail.len() > 0 ==> !row.accepts(tail[0].pixel(0), max_width),
{
    let rows = seq![row] + tail;
    assert(rows[0] == row);
    assert forall|i: int| 0 <= i < tail.len() implies (#[trigger] tail[i]).well_formed(
        max_width,
    ) by {
        assert(rows[i + 1] == tail[i]);
    }
    assert forall|i: int, j: int| 0 <= i && j == i + 1 && j < tail.len() implies !(
    #[trigger] tail[i]).accepts((#[trigger] tail[j]).pixel(0), max_width) by {
        assert(rows[i + 1] == tail[i]);
        assert(rows[j + 1] == tail[j]);
    }
    if tail.len() > 0 {
        assert(rows[1] == tail[0]);
    }
}

proof fn lemma_rows_from_rebuild(partial: RowView, row: RowView, tail: Seq<RowView>, max_width: nat)
    requires
        1 <= max_width,
        rows_settled(seq![row] + tail, max_width),
        partial.well_formed(max_width),
        partial.x_left == row.x_left,
        partial.y == row.y,
        partial.colors.len() <= row.colors.len(),
        partial.colors == row.colors.take(partial.colors.len() as int),
    ensures
        rows_from(
            Some(partial),
            row.pixels().skip(partial.colors.len() as int) + row_pixels_of(tail),
            max_width,
        ) == seq![row] + tail,
    decreases tail.len(), row.colors.len() - partial.colors.len(),
{
    let written = |row: RowView| row.pixels();
    let taken = partial.colors.len() as int;
    let pixels = row.pixels().skip(taken) + row_pixels_of(tail);
    lemma_rows_settled_tail(row, tail, max_width);
    if taken < row.colors.len() {
        let pixel = row.pixel(taken);
        assert(pixels.first() == pixel);
        assert(pixels.drop_first() =~= row.pixels().skip(taken + 1) + row_pixels_of(tail));
        assert(partial.accepts(pixel, max_width));
        lemma_extended_pixels(partial, pixel, max_width);
        assert(partial.extended(pixel).colors =~= row.colors.take(taken + 1));
        lemma_rows_from_rebuild(partial.extended(pixel), row, tail, max_width);
    } else {
        assert(partial.colors =~= row.colors);
        assert(partial == row);
        assert(row.pixels().skip(taken) =~= Seq::<Pixel>::empty());
        if tail.len() == 0 {
            lemma_flat_map_empty::<RowView, Pixel>(written);
            assert(tail =~= Seq::<RowView>::empty());
            assert(pixels =~= Seq::<Pixel>::empty());
            assert(seq![row] + tail =~= seq![row]);
        } else {
            let next = tail.first();
            let rest = tail.drop_first();
            assert(tail =~= seq![next] + rest);
            lemma_flat_map_cons(next, rest, written);
            let pixel = next.pixel(0);
            assert(pixels =~= next.pixels() + row_pixels_of(rest));
            assert(pixels.first() == pixel);
            assert(pixels.drop_first() =~= next.pixels().skip(1) + row_pixels_of(rest));
            lemma_single_pixels(pixel, max_width);
            assert(RowView::single(pixel).colors =~= next.colors.take(1));
            lemma_rows_from_rebuild(RowView::single(pixel), next, rest, max_width);
        }
    }
}

/// The row stage undoes the writing out of rows: whatever list of
/// well-formed rows is given, no two neighbours of which could be merged,
/// batching the pixels that it writes gives that list again. So the rows
/// of a pixel stream are the only such list that writes the stream.
pub proof fn lemma_rows_unique(rows: Seq<RowView>, max_width: nat)
    requires
        1 <= max_width,
        rows_settled(rows, max_width),
    ensures
        rows_of(row_pixels_of(rows), max_width) == rows,
{
    let written = |row: RowView| row.pixels();
    if rows.len() == 0 {
        assert(rows =~= Seq::<RowView>::empty());
        lemma_flat_map_empty::<RowView, Pixel>(written);
    } else {
        let row = rows.first();
        let rest = rows.drop_first();
        assert(rows =~= seq![row] + rest);
        lemma_rows_settled_tail(row, rest, max_width);
        lemma_flat_map_cons(row, rest, written);
        let pixels = row_pixels_of(rows);
        let pixel = row.pixel(0);
        assert(pixels =~= row.pixels() + row_pixels_of(rest));
        assert(pixels.first() == pixel);
        assert(pixels.drop_first() =~= row.pixels().skip(1) + row_pixels_of(rest));
        lemma_single_pixels(pixel, max_width);
        assert(RowView::single(pixel).colors =~= row.colors.take(1));
        lemma_rows_from_rebuild(RowView::single(pixel), row, rest, max_width);
    }
}

} // verus!
