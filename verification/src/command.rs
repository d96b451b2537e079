//! What the driver sends to the controller: the commands of the start-up
//! sequence, the orientation byte, the address window of a write, and the
//! bytes of a colour word.
//!
//! Nothing here touches the bus. The functions compute plain values, and
//! the driver writes them out.

use crate::pixel::{PixelBlock, PixelRow};
use vstd::prelude::*;

verus! {

/// The controller commands that the driver uses.
#[derive(Clone, Copy, Debug, PartialEq, Eq, Structural)]
pub enum Instruction {
    SWRESET,
    SLPOUT,
    INVOFF,
    INVON,
    DISPON,
    CASET,
    RASET,
    RAMWR,
    MADCTL,
    COLMOD,
    FRMCTR1,
    FRMCTR2,
    FRMCTR3,
    INVCTR,
    PWCTR1,
    PWCTR2,
    PWCTR3,
    PWCTR4,
    PWCTR5,
    VMCTR1,
}

impl Instruction {
    /// The command byte of the instruction.
    pub open spec fn opcode(self) -> u8 {
        match self {
            Instruction::SWRESET => 0x01,
            Instruction::SLPOUT => 0x11,
            Instruction::INVOFF => 0x20,
            Instruction::INVON => 0x21,
            Instruction::DISPON => 0x29,
            Instruction::CASET => 0x2A,
            Instruction::RASET => 0x2B,
            Instruction::RAMWR => 0x2C,
            Instruction::MADCTL => 0x36,
            Instruction::COLMOD => 0x3A,
            Instruction::FRMCTR1 => 0xB1,
            Instruction::FRMCTR2 => 0xB2,
            Instruction::FRMCTR3 => 0xB3,
            Instruction::INVCTR => 0xB4,
            Instruction::PWCTR1 => 0xC0,
            Instruction::PWCTR2 => 0xC1,
            Instruction::PWCTR3 => 0xC2,
            Instruction::PWCTR4 => 0xC3,
            Instruction::PWCTR5 => 0xC4,
            Instruction::VMCTR1 => 0xC5,
        }
    }

    /// The command byte of the instruction.
    pub fn to_u8(&self) -> (byte: u8)
        ensures
            byte == self.opcode(),
    {
        match self {
            Instruction::SWRESET => 0x01,
            Instruction::SLPOUT => 0x11,
            Instruction::INVOFF => 0x20,
            Instruction::INVON => 0x21,
            Instruction::DISPON => 0x29,
            Instruction::CASET => 0x2A,
            Instruction::RASET => 0x2B,
            Instruction::RAMWR => 0x2C,
            Instruction::MADCTL => 0x36,
            Instruction::COLMOD => 0x3A,
            Instruction::FRMCTR1 => 0xB1,
            Instruction::FRMCTR2 => 0xB2,
            Instruction::FRMCTR3 => 0xB3,
            Instruction::INVCTR => 0xB4,
            Instruction::PWCTR1 => 0xC0,
            Instruction::PWCTR2 => 0xC1,
            Instruction::PWCTR3 => 0xC2,
            Instruction::PWCTR4 => 0xC3,
            Instruction::PWCTR5 => 0xC4,
            Instruction::VMCTR1 => 0xC5,
        }
    }
}

/// Display orientation.
#[derive(Clone, Copy, Debug, PartialEq, Eq, Structural)]
pub enum Orientation {
    Portrait,
    Landscape,
    PortraitSwapped,
    LandscapeSwapped,
}

impl Orientation {
    /// The row and column exchange bits of the orientation, as they stand
    /// in the memory access control byte.
    pub open spec fn bits(self) -> u8 {
        match self {
            Orientation::Portrait => 0x00,
            Orientation::Landscape => 0x60,
            Orientation::PortraitSwapped => 0xC0,
            Orientation::LandscapeSwapped => 0xA0,
        }
    }

    /// The row and column exchange bits of the orientation.
    pub fn to_u8(&self) -> (byte: u8)
        ensures
            byte == self.bits(),
    {
        match self {
            Orientation::Portrait => 0x00,
            Orientation::Landscape => 0x60,
            Orientation::PortraitSwapped => 0xC0,
            Orientation::LandscapeSwapped => 0xA0,
        }
    }

    /// The memory access control byte for this orientation: the
    /// orientation's bits, and bit 3 set where the panel's colour order is
    /// blue, green, red (`rgb` is false).
    pub fn madctl(&self, rgb: bool) -> (byte: u8)
        ensures
            byte == self.bits() + if rgb { 0int } else { 8int },
    {
        let bits = self.to_u8();
        if rgb {
            bits
        } else {
            assert(0x00u8 | 0x08 == 0x08 && 0x60u8 | 0x08 == 0x68 && 0xC0u8 | 0x08 == 0xC8 && 0xA0u8
                | 0x08 == 0xA8) by (bit_vector);
            bits | 0x08
        }
    }
}

/// The two bytes of a colour or coordinate word in the order in which they
/// are sent: the high byte first.
pub fn word_bytes(value: u16) -> (bytes: [u8; 2])
    ensures
        bytes[0] == value / 256,
        bytes[1] == value % 256,
{
    let high: u8 = (value >> 8) as u8;
    let low: u8 = (value & 0xff) as u8;
    assert(value >> 8 == value / 256 && value & 0xff == value % 256) by (bit_vector);
    [high, low]
}

/// The rectangle of display memory that the next write fills, left to
/// right and then top to bottom. All four bounds are inclusive.
#[derive(Clone, Copy, Debug, PartialEq, Eq, Structural)]
pub struct Window {
    pub x_start: u16,
    pub y_start: u16,
    pub x_end: u16,
    pub y_end: u16,
}

impl Window {
    /// This window moved by the display's offset, or `None` where a bound
    /// would leave the 16-bit range.
    pub fn offset(&self, dx: u16, dy: u16) -> (moved: Option<Window>)
        ensures
            moved is Some <==> self.x_start + dx <= u16::MAX && self.x_end + dx <= u16::MAX
                && self.y_start + dy <= u16::MAX && self.y_end + dy <= u16::MAX,
            moved matches Some(w) ==> w.x_start == self.x_start + dx && w.x_end == self.x_end + dx
                && w.y_start == self.y_start + dy && w.y_end == self.y_end + dy,
    {
        if self.x_start > u16::MAX - dx || self.x_end > u16::MAX - dx || self.y_start > u16::MAX
            - dy || self.y_end > u16::MAX - dy {
            return None;
        }
        Some(
            Window {
                x_start: self.x_start + dx,
                y_start: self.y_start + dy,
                x_end: self.x_end + dx,
                y_end: self.y_end + dy,
            },
        )
    }
}

impl PixelRow {
    /// The window that the row is written to: its columns on its one line.
    pub fn window(&self) -> (window: Window)
        ensures
            window.x_start == self.x_left,
            window.x_end == self.x_right,
            window.y_start == self.y,
            window.y_end == self.y,
    {
        Window { x_start: self.x_left, y_start: self.y, x_end: self.x_right, y_end: self.y }
    }
}

impl PixelBlock {
    /// The window that the block is written to: its columns on its lines.
    pub fn window(&self) -> (window: Window)
        ensures
            window.x_start == self.x_left,
            window.x_end == self.x_right,
            window.y_start == self.y_top,
            window.y_end == self.y_bottom,
    {
        Window {
            x_start: self.x_left,
            y_start: self.y_top,
            x_end: self.x_right,
            y_end: self.y_bottom,
        }
    }
}

/// One step of the start-up sequence: a command, its parameter bytes, and
/// the time to wait after it, in milliseconds.
#[derive(Debug)]
pub struct Command {
    pub instruction: Instruction,
    pub params: Vec<u8>,
    pub delay_ms: u8,
}

/// What a [`Command`] stands for.
#[verifier::ext_equal]
pub ghost struct CommandView {
    pub instruction: Instruction,
    pub params: Seq<u8>,
    pub delay_ms: u8,
}

impl View for Command {
    type V = CommandView;

    open spec fn view(&self) -> CommandView {
        CommandView {
            instruction: self.instruction,
            params: self.params@,
            delay_ms: self.delay_ms,
        }
    }
}

/// A command with parameters and no wait.
pub open spec fn step(instruction: Instruction, params: Seq<u8>) -> CommandView {
    CommandView { instruction, params, delay_ms: 0 }
}

/// A command without parameters, followed by a wait of 200 ms.
pub open spec fn slow_step(instruction: Instruction) -> CommandView {
    CommandView { instruction, params: Seq::empty(), delay_ms: 200 }
}

/// The start-up sequence of the controller. `rgb` tells the panel's colour
/// order, `inverted` whether it shows colours inverted.
pub open spec fn init_commands(rgb: bool, inverted: bool) -> Seq<CommandView> {
    seq![
        slow_step(Instruction::SWRESET),
        slow_step(Instruction::SLPOUT),
        step(Instruction::FRMCTR1, seq![0x01u8, 0x2C, 0x2D]),
        step(Instruction::FRMCTR2, seq![0x01u8, 0x2C, 0x2D]),
        step(Instruction::FRMCTR3, seq![0x01u8, 0x2C, 0x2D, 0x01, 0x2C, 0x2D]),
        step(Instruction::INVCTR, seq![0x07u8]),
        step(Instruction::PWCTR1, seq![0xA2u8, 0x02, 0x84]),
        step(Instruction::PWCTR2, seq![0xC5u8]),
        step(Instruction::PWCTR3, seq![0x0Au8, 0x00]),
        step(Instruction::PWCTR4, seq![0x8Au8, 0x2A]),
        step(Instruction::PWCTR5, seq![0x8Au8, 0xEE]),
        step(Instruction::VMCTR1, seq![0x0Eu8]),
        step(if inverted { Instruction::INVON } else { Instruction::INVOFF }, Seq::empty()),
        step(Instruction::MADCTL, seq![if rgb { 0x00u8 } else { 0x08u8 }]),
        step(Instruction::COLMOD, seq![0x05u8]),
        slow_step(Instruction::DISPON),
    ]
}

fn command(instruction: Instruction, params: Vec<u8>, delay_ms: u8) -> (command: Command)
    ensures
        command@ == (CommandView { instruction, params: params@, delay_ms }),
{
    Command { instruction, params, delay_ms }
}

/// The commands that start the controller up, in the order in which they
/// are sent.
pub fn init_sequence(rgb: bool, inverted: bool) -> (commands: Vec<Command>)
    ensures
        commands@.map_values(|c: Command| c@) == init_commands(rgb, inverted),
{
    let mut commands: Vec<Command> = Vec::new();
    commands.push(command(Instruction::SWRESET, Vec::new(), 200));
    commands.push(command(Instruction::SLPOUT, Vec::new(), 200));
    commands.push(command(Instruction::FRMCTR1, vec![0x01, 0x2C, 0x2D], 0));
    commands.push(command(Instruction::FRMCTR2, vec![0x01, 0x2C, 0x2D], 0));
    commands.push(command(Instruction::FRMCTR3, vec![0x01, 0x2C, 0x2D, 0x01, 0x2C, 0x2D], 0));
    commands.push(command(Instruction::INVCTR, vec![0x07], 0));
    commands.push(command(Instruction::PWCTR1, vec![0xA2, 0x02, 0x84], 0));
    commands.push(command(Instruction::PWCTR2, vec![0xC5], 0));
    commands.push(command(Instruction::PWCTR3, vec![0x0A, 0x00], 0));
    commands.push(command(Instruction::PWCTR4, vec![0x8A, 0x2A], 0));
    commands.push(command(Instruction::PWCTR5, vec![0x8A, 0xEE], 0));
    commands.push(command(Instruction::VMCTR1, vec![0x0E], 0));
    if inverted {
        commands.push(command(Instruction::INVON, Vec::new(), 0));
    } else {
        commands.push(command(Instruction::INVOFF, Vec::new(), 0));
    }
    commands.push(command(Instruction::MADCTL, vec![Orientation::Portrait.madctl(rgb)], 0));
    commands.push(command(Instruction::COLMOD, vec![0x05], 0));
    commands.push(command(Instruction::DISPON, Vec::new(), 200));
    assert(commands@.map_values(|c: Command| c@) =~~= init_commands(rgb, inverted));
    commands
}

} // verus!
