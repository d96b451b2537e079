//! Batching of pixel writes for ST7735 TFT displays.
//!
//! Every write to the display costs an address-window command before the
//! colour data. This crate folds a stream of individually addressed pixels
//! into horizontal runs ([`PixelRow`]) and stacks runs of equal extent on
//! adjacent lines into rectangles ([`PixelBlock`]), so that one window
//! command serves many pixels. It also computes what a driver sends to the
//! controller: the start-up sequence, the orientation byte, the address
//! window and the bytes of a colour word.

pub mod block_laws;
pub mod blocks;
pub mod buffer;
pub mod command;
mod concat;
pub mod pixel;
pub mod row_laws;
pub mod rows;

pub use crate::blocks::{to_blocks, BlockCollector, BlockIterator};
pub use crate::buffer::{BlockColors, RowColors};
pub use crate::command::{init_sequence, word_bytes, Command, Instruction, Orientation, Window};
pub use crate::pixel::{
    CapacityError, Pixel, PixelBlock, PixelRow, MAX_BLOCK_HEIGHT, MAX_ROW_WIDTH,
};
pub use crate::rows::{to_rows, RowCollector, RowIterator};
