use st7735_lcd::{
    to_rows, CapacityError, Pixel, PixelRow, RowCollector, RowIterator, MAX_ROW_WIDTH,
};

const A: u16 = 0x07E0;

fn px(x: u16, y: u16, color: u16) -> Pixel {
    Pixel { x, y, color }
}

fn drain(mut rows: RowIterator) -> Vec<PixelRow> {
    let mut out = Vec::new();
    while let Some(row) = rows.next() {
        out.push(row);
    }
    out
}

fn check(row: &PixelRow, x_left: u16, x_right: u16, y: u16, colors: &[u16]) {
    assert_eq!(row.x_left, x_left);
    assert_eq!(row.x_right, x_right);
    assert_eq!(row.y, y);
    assert_eq!(row.colors.as_slice(), colors);
}

#[test]
fn adjacent_pixels_form_one_row() {
    let rows = drain(to_rows(vec![px(0, 0, 0xFFFF), px(1, 0, 0xFFFF), px(2, 0, 0xFFFF)]));
    assert_eq!(rows.len(), 1);
    check(&rows[0], 0, 2, 0, &[0xFFFF, 0xFFFF, 0xFFFF]);
}

#[test]
fn gap_breaks_run() {
    let rows = drain(to_rows(vec![px(0, 0, A), px(1, 0, A), px(3, 0, A)]));
    assert_eq!(rows.len(), 2);
    check(&rows[0], 0, 1, 0, &[A, A]);
    check(&rows[1], 3, 3, 0, &[A]);
}

#[test]
fn width_limit_splits_run() {
    let pixels = vec![px(0, 0, A), px(1, 0, A), px(2, 0, A)];
    let rows = drain(RowIterator::with_max_width(pixels, 2).unwrap());
    assert_eq!(rows.len(), 2);
    check(&rows[0], 0, 1, 0, &[A, A]);
    check(&rows[1], 2, 2, 0, &[A]);
}

#[test]
fn empty_input_gives_no_rows() {
    let mut rows = to_rows(Vec::new());
    assert!(rows.next().is_none());
    assert!(rows.next().is_none());
}

#[test]
fn exhausted_iterator_stays_exhausted() {
    let mut rows = to_rows(vec![px(4, 9, 1)]);
    let row = rows.next().unwrap();
    check(&row, 4, 4, 9, &[1]);
    assert!(rows.next().is_none());
    assert!(rows.next().is_none());
}

#[test]
fn line_change_breaks_run() {
    let rows = drain(to_rows(vec![px(0, 0, 1), px(1, 0, 2), px(2, 1, 3), px(3, 1, 4)]));
    assert_eq!(rows.len(), 2);
    check(&rows[0], 0, 1, 0, &[1, 2]);
    check(&rows[1], 2, 3, 1, &[3, 4]);
}

#[test]
fn colors_keep_their_positions() {
    let rows = drain(to_rows(vec![px(10, 3, 0x0001), px(11, 3, 0x0002), px(12, 3, 0x0003)]));
    assert_eq!(rows.len(), 1);
    check(&rows[0], 10, 12, 3, &[0x0001, 0x0002, 0x0003]);
}

#[test]
fn out_of_order_pixels_give_shorter_rows() {
    let rows = drain(to_rows(vec![px(2, 0, 3), px(1, 0, 2), px(0, 0, 1)]));
    assert_eq!(rows.len(), 3);
    check(&rows[0], 2, 2, 0, &[3]);
    check(&rows[1], 1, 1, 0, &[2]);
    check(&rows[2], 0, 0, 0, &[1]);
}

#[test]
fn repeated_pixel_starts_a_new_row() {
    let rows = drain(to_rows(vec![px(5, 5, 1), px(5, 5, 2)]));
    assert_eq!(rows.len(), 2);
    check(&rows[0], 5, 5, 5, &[1]);
    check(&rows[1], 5, 5, 5, &[2]);
}

#[test]
fn last_column_does_not_wrap_to_first() {
    let rows = drain(to_rows(vec![px(65534, 0, 1), px(65535, 0, 2), px(0, 0, 3)]));
    assert_eq!(rows.len(), 2);
    check(&rows[0], 65534, 65535, 0, &[1, 2]);
    check(&rows[1], 0, 0, 0, &[3]);
}

#[test]
fn full_width_row_is_closed_at_the_limit() {
    let pixels: Vec<Pixel> = (0..241u16).map(|x| px(x, 7, x)).collect();
    let rows = drain(to_rows(pixels));
    assert_eq!(rows.len(), 2);
    let expected: Vec<u16> = (0..240u16).collect();
    check(&rows[0], 0, 239, 7, &expected);
    check(&rows[1], 240, 240, 7, &[240]);
    assert_eq!(rows[0].colors.len(), MAX_ROW_WIDTH);
}

#[test]
fn width_limit_of_one_gives_one_row_per_pixel() {
    let pixels = vec![px(0, 0, 1), px(1, 0, 2), px(2, 0, 3)];
    let rows = drain(RowIterator::with_max_width(pixels, 1).unwrap());
    assert_eq!(rows.len(), 3);
    check(&rows[0], 0, 0, 0, &[1]);
    check(&rows[1], 1, 1, 0, &[2]);
    check(&rows[2], 2, 2, 0, &[3]);
}

#[test]
fn width_limit_must_fit_the_buffer() {
    assert_eq!(RowIterator::with_max_width(Vec::new(), 0).err(), Some(CapacityError::Zero));
    assert_eq!(
        RowIterator::with_max_width(Vec::new(), MAX_ROW_WIDTH + 1).err(),
        Some(CapacityError::TooLarge)
    );
    assert!(RowIterator::with_max_width(Vec::new(), 1).is_ok());
    assert!(RowIterator::with_max_width(Vec::new(), MAX_ROW_WIDTH).is_ok());
    assert_eq!(RowCollector::with_max_width(0).err(), Some(CapacityError::Zero));
    assert_eq!(
        RowCollector::with_max_width(MAX_ROW_WIDTH + 1).err(),
        Some(CapacityError::TooLarge)
    );
    assert_eq!(RowCollector::with_max_width(usize::MAX).err(), Some(CapacityError::TooLarge));
    assert!(RowCollector::with_max_width(MAX_ROW_WIDTH).is_ok());
}

#[test]
fn collector_hands_out_a_row_when_a_pixel_closes_it() {
    let mut run = RowCollector::new();
    assert!(run.push(px(0, 0, 1)).is_none());
    assert!(run.push(px(1, 0, 2)).is_none());
    let row = run.push(px(0, 1, 3)).unwrap();
    check(&row, 0, 1, 0, &[1, 2]);
    let row = run.finish().unwrap();
    check(&row, 0, 0, 1, &[3]);
    assert!(run.finish().is_none());
}

#[test]
fn collector_starts_afresh_after_finish() {
    let mut run = RowCollector::new();
    assert!(run.finish().is_none());
    assert!(run.push(px(3, 3, 9)).is_none());
    check(&run.finish().unwrap(), 3, 3, 3, &[9]);
    assert!(run.push(px(4, 3, 8)).is_none());
    check(&run.finish().unwrap(), 4, 4, 3, &[8]);
}

#[test]
fn rows_reproduce_the_colors_in_order() {
    let pixels = vec![
        px(0, 0, 10),
        px(1, 0, 11),
        px(5, 0, 12),
        px(0, 1, 13),
        px(1, 1, 14),
        px(2, 1, 15),
        px(9, 9, 16),
    ];
    let expected: Vec<u16> = pixels.iter().map(|p| p.color).collect();
    let rows = drain(RowIterator::with_max_width(pixels, 2).unwrap());
    let mut colors = Vec::new();
    for row in &rows {
        colors.extend_from_slice(row.colors.as_slice());
    }
    assert_eq!(colors, expected);
}

#[test]
fn rows_have_one_color_per_column_within_the_limit() {
    let pixels: Vec<Pixel> = (0..50u16).map(|i| px(i % 7, i / 7, i)).collect();
    let rows = drain(RowIterator::with_max_width(pixels, 3).unwrap());
    assert!(!rows.is_empty());
    for row in &rows {
        assert!(row.x_left <= row.x_right);
        assert_eq!(row.colors.len(), (row.x_right - row.x_left) as usize + 1);
        assert!(row.colors.len() <= 3);
    }
}

#[test]
fn neighbouring_rows_could_not_be_merged() {
    let pixels: Vec<Pixel> = (0..50u16).map(|i| px(i % 7, i / 7, i)).collect();
    let rows = drain(RowIterator::with_max_width(pixels, 3).unwrap());
    for pair in rows.windows(2) {
        let joins = pair[1].x_left as u32 == pair[0].x_right as u32 + 1
            && pair[1].y == pair[0].y
            && pair[0].colors.len() < 3;
        assert!(!joins);
    }
    assert_eq!(rows.len(), 22);
}
