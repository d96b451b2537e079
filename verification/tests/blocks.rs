use st7735_lcd::{
    to_blocks, to_rows, BlockCollector, BlockIterator, CapacityError, Pixel, PixelBlock, PixelRow,
    RowColors, MAX_BLOCK_HEIGHT,
};

fn row(x_left: u16, x_right: u16, y: u16, colors: &[u16]) -> PixelRow {
    PixelRow { x_left, x_right, y, colors: RowColors::from_slice(colors).unwrap() }
}

fn feed(mut stack: BlockCollector, rows: Vec<PixelRow>) -> Vec<PixelBlock> {
    let mut out = Vec::new();
    for r in rows {
        if let Some(block) = stack.push(r) {
            out.push(block);
        }
    }
    if let Some(block) = stack.finish() {
        out.push(block);
    }
    out
}

fn drain_blocks(mut blocks: BlockIterator) -> Vec<PixelBlock> {
    let mut out = Vec::new();
    while let Some(block) = blocks.next() {
        out.push(block);
    }
    out
}

fn rectangle(x0: u16, y0: u16, width: u16, height: u16) -> Vec<Pixel> {
    let mut pixels = Vec::new();
    for y in 0..height {
        for x in 0..width {
            pixels.push(Pixel { x: x0 + x, y: y0 + y, color: y * width + x });
        }
    }
    pixels
}

fn check_block(block: &PixelBlock, x_left: u16, x_right: u16, y_top: u16, y_bottom: u16) {
    assert_eq!(block.x_left, x_left);
    assert_eq!(block.x_right, x_right);
    assert_eq!(block.y_top, y_top);
    assert_eq!(block.y_bottom, y_bottom);
}

#[test]
fn full_block_is_flushed_and_the_next_row_starts_a_block() {
    let rows: Vec<PixelRow> = (0..11u16).map(|y| row(0, 5, y, &[y, y, y, y, y, y])).collect();
    let blocks = feed(BlockCollector::new(), rows);
    assert_eq!(blocks.len(), 2);
    check_block(&blocks[0], 0, 5, 0, 9);
    assert_eq!(blocks[0].colors.len(), 10);
    for (i, colors) in blocks[0].colors.iter().enumerate() {
        let y = i as u16;
        assert_eq!(colors.as_slice(), &[y, y, y, y, y, y]);
    }
    check_block(&blocks[1], 0, 5, 10, 10);
    assert_eq!(blocks[1].colors.len(), 1);
    assert_eq!(blocks[1].colors[0].as_slice(), &[10, 10, 10, 10, 10, 10]);
}

#[test]
fn full_block_is_flushed_in_the_pipeline() {
    let blocks = drain_blocks(to_blocks(to_rows(rectangle(0, 0, 6, 11))));
    assert_eq!(blocks.len(), 2);
    check_block(&blocks[0], 0, 5, 0, 9);
    assert_eq!(blocks[0].colors.len(), MAX_BLOCK_HEIGHT);
    check_block(&blocks[1], 0, 5, 10, 10);
    assert_eq!(blocks[1].colors.len(), 1);
    assert_eq!(blocks[1].colors[0].as_slice(), &[60, 61, 62, 63, 64, 65]);
}

#[test]
fn empty_input_gives_no_blocks() {
    let mut blocks = to_blocks(to_rows(Vec::new()));
    assert!(blocks.next().is_none());
    assert!(blocks.next().is_none());
    let mut stack = BlockCollector::new();
    assert!(stack.finish().is_none());
}

#[test]
fn rows_of_equal_extent_on_adjacent_lines_stack() {
    let blocks = feed(
        BlockCollector::new(),
        vec![row(2, 4, 7, &[1, 2, 3]), row(2, 4, 8, &[4, 5, 6]), row(2, 4, 9, &[7, 8, 9])],
    );
    assert_eq!(blocks.len(), 1);
    check_block(&blocks[0], 2, 4, 7, 9);
    assert_eq!(blocks[0].colors.len(), 3);
    assert_eq!(blocks[0].colors[0].as_slice(), &[1, 2, 3]);
    assert_eq!(blocks[0].colors[1].as_slice(), &[4, 5, 6]);
    assert_eq!(blocks[0].colors[2].as_slice(), &[7, 8, 9]);
}

#[test]
fn different_extent_starts_a_new_block() {
    let blocks = feed(
        BlockCollector::new(),
        vec![row(0, 1, 0, &[1, 2]), row(0, 2, 1, &[3, 4, 5]), row(1, 2, 2, &[6, 7])],
    );
    assert_eq!(blocks.len(), 3);
    check_block(&blocks[0], 0, 1, 0, 0);
    check_block(&blocks[1], 0, 2, 1, 1);
    check_block(&blocks[2], 1, 2, 2, 2);
    assert_eq!(blocks[1].colors[0].as_slice(), &[3, 4, 5]);
}

#[test]
fn skipped_line_starts_a_new_block() {
    let blocks = feed(BlockCollector::new(), vec![row(0, 1, 0, &[1, 2]), row(0, 1, 2, &[3, 4])]);
    assert_eq!(blocks.len(), 2);
    check_block(&blocks[0], 0, 1, 0, 0);
    check_block(&blocks[1], 0, 1, 2, 2);
}

#[test]
fn same_line_twice_starts_a_new_block() {
    let blocks = feed(BlockCollector::new(), vec![row(0, 0, 4, &[1]), row(0, 0, 4, &[2])]);
    assert_eq!(blocks.len(), 2);
    check_block(&blocks[0], 0, 0, 4, 4);
    check_block(&blocks[1], 0, 0, 4, 4);
}

#[test]
fn last_line_does_not_wrap_to_first() {
    let blocks = feed(
        BlockCollector::new(),
        vec![row(0, 0, 65534, &[1]), row(0, 0, 65535, &[2]), row(0, 0, 0, &[3])],
    );
    assert_eq!(blocks.len(), 2);
    check_block(&blocks[0], 0, 0, 65534, 65535);
    check_block(&blocks[1], 0, 0, 0, 0);
}

#[test]
fn height_limit_splits_stack() {
    let rows: Vec<PixelRow> = (0..5u16).map(|y| row(3, 3, y, &[y])).collect();
    let blocks = feed(BlockCollector::with_max_height(2).unwrap(), rows);
    assert_eq!(blocks.len(), 3);
    check_block(&blocks[0], 3, 3, 0, 1);
    check_block(&blocks[1], 3, 3, 2, 3);
    check_block(&blocks[2], 3, 3, 4, 4);
}

#[test]
fn height_limit_must_fit_the_buffer() {
    assert_eq!(BlockCollector::with_max_height(0).err(), Some(CapacityError::Zero));
    assert_eq!(
        BlockCollector::with_max_height(MAX_BLOCK_HEIGHT + 1).err(),
        Some(CapacityError::TooLarge)
    );
    assert!(BlockCollector::with_max_height(1).is_ok());
    assert!(BlockCollector::with_max_height(MAX_BLOCK_HEIGHT).is_ok());
    assert_eq!(
        BlockIterator::with_max_height(to_rows(Vec::new()), 0).err(),
        Some(CapacityError::Zero)
    );
    assert_eq!(
        BlockIterator::with_max_height(to_rows(Vec::new()), MAX_BLOCK_HEIGHT + 1).err(),
        Some(CapacityError::TooLarge)
    );
    assert!(BlockIterator::with_max_height(to_rows(Vec::new()), 3).is_ok());
}

#[test]
fn block_iterator_with_limit_splits_rectangle() {
    let rows = to_rows(rectangle(10, 20, 3, 5));
    let blocks = drain_blocks(BlockIterator::with_max_height(rows, 2).unwrap());
    assert_eq!(blocks.len(), 3);
    check_block(&blocks[0], 10, 12, 20, 21);
    check_block(&blocks[1], 10, 12, 22, 23);
    check_block(&blocks[2], 10, 12, 24, 24);
    assert_eq!(blocks[2].colors[0].as_slice(), &[12, 13, 14]);
}

#[test]
fn exhausted_block_iterator_stays_exhausted() {
    let mut blocks = to_blocks(to_rows(rectangle(0, 0, 2, 2)));
    let block = blocks.next().unwrap();
    check_block(&block, 0, 1, 0, 1);
    assert!(blocks.next().is_none());
    assert!(blocks.next().is_none());
}

#[test]
fn blocks_reproduce_the_colors_in_order() {
    let mut pixels = rectangle(0, 0, 4, 3);
    pixels.extend(rectangle(7, 3, 2, 12));
    pixels.push(Pixel { x: 100, y: 100, color: 0xABCD });
    let expected: Vec<u16> = pixels.iter().map(|p| p.color).collect();
    let blocks = drain_blocks(to_blocks(to_rows(pixels)));
    let mut colors = Vec::new();
    for block in &blocks {
        for r in block.colors.iter() {
            colors.extend_from_slice(r.as_slice());
        }
    }
    assert_eq!(colors, expected);
    assert_eq!(blocks.len(), 4);
}

#[test]
fn blocks_have_one_row_per_line_within_the_limit() {
    let mut pixels = rectangle(0, 0, 4, 3);
    pixels.extend(rectangle(7, 3, 2, 25));
    let blocks = drain_blocks(to_blocks(to_rows(pixels)));
    assert_eq!(blocks.len(), 4);
    for block in &blocks {
        assert!(block.y_top <= block.y_bottom);
        assert_eq!(block.colors.len(), (block.y_bottom - block.y_top) as usize + 1);
        assert!(block.colors.len() <= MAX_BLOCK_HEIGHT);
        for r in block.colors.iter() {
            assert_eq!(r.len(), (block.x_right - block.x_left) as usize + 1);
        }
    }
}

#[test]
fn neighbouring_blocks_could_not_be_merged() {
    let mut pixels = rectangle(0, 0, 4, 3);
    pixels.extend(rectangle(0, 3, 4, 12));
    let blocks = drain_blocks(to_blocks(to_rows(pixels)));
    assert_eq!(blocks.len(), 2);
    check_block(&blocks[0], 0, 3, 0, 9);
    check_block(&blocks[1], 0, 3, 10, 14);
    for pair in blocks.windows(2) {
        let stacks = pair[1].y_top as u32 == pair[0].y_bottom as u32 + 1
            && pair[1].x_left == pair[0].x_left
            && pair[1].x_right == pair[0].x_right
            && pair[0].colors.len() < MAX_BLOCK_HEIGHT;
        assert!(!stacks);
    }
}

#[test]
fn block_collector_starts_afresh_after_finish() {
    let mut stack = BlockCollector::new();
    assert!(stack.push(row(0, 0, 0, &[1])).is_none());
    check_block(&stack.finish().unwrap(), 0, 0, 0, 0);
    assert!(stack.push(row(0, 0, 1, &[2])).is_none());
    let block = stack.finish().unwrap();
    check_block(&block, 0, 0, 1, 1);
    assert_eq!(block.colors.len(), 1);
    assert_eq!(block.colors[0].as_slice(), &[2]);
}

#[test]
fn block_words_run_row_after_row() {
    let blocks = feed(
        BlockCollector::new(),
        vec![row(2, 4, 7, &[1, 2, 3]), row(2, 4, 8, &[4, 5, 6]), row(2, 4, 9, &[7, 8, 9])],
    );
    assert_eq!(blocks.len(), 1);
    assert_eq!(blocks[0].color_words(), vec![1, 2, 3, 4, 5, 6, 7, 8, 9]);
}

#[test]
fn block_words_of_the_pipeline_are_the_pixel_colors() {
    let mut pixels = rectangle(0, 0, 4, 3);
    pixels.extend(rectangle(7, 3, 2, 12));
    pixels.push(Pixel { x: 100, y: 100, color: 0xABCD });
    let expected: Vec<u16> = pixels.iter().map(|p| p.color).collect();
    let mut words = Vec::new();
    for block in drain_blocks(to_blocks(to_rows(pixels))) {
        words.extend(block.color_words());
    }
    assert_eq!(words, expected);
}

#[test]
fn row_words_run_left_to_right() {
    let r = row(10, 13, 2, &[0xF800, 0x07E0, 0x001F, 0xFFFF]);
    assert_eq!(r.color_words(), vec![0xF800, 0x07E0, 0x001F, 0xFFFF]);
    let mut rows = to_rows(vec![
        Pixel { x: 0, y: 0, color: 5 },
        Pixel { x: 1, y: 0, color: 6 },
    ]);
    assert_eq!(rows.next().unwrap().color_words(), vec![5, 6]);
}
