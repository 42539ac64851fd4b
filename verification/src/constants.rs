use vstd::prelude::*;

verus! {

/// Bytes of addressable memory.
pub const RAM_SIZE: usize = 4096;
/// Width of the monochrome display, in pixels.
pub const DISPLAY_WIDTH: usize = 64;
/// Height of the monochrome display, in pixels.
pub const DISPLAY_HEIGHT: usize = 32;
/// Number of pixels of the display.
pub const DISPLAY_SIZE: usize = 2048;
/// Number of general-purpose registers `V0` to `VF`.
pub const NUM_REGS: usize = 16;
/// Depth of the subroutine stack.
pub const STACK_SIZE: usize = 16;
/// Number of keys of the hexadecimal keypad.
pub const NUM_KEYS: usize = 16;
/// Address at which programs are loaded and execution starts.
pub const PROGRAM_START: usize = 0x200;
/// Address at which the built-in font is stored.
pub const FONT_START: usize = 0x050;
/// Machine cycles per 60 Hz frame: the machine runs at 600 Hz while the
/// timers count down at 60 Hz.
pub const CYCLES_PER_FRAME: usize = 10;
/// Bytes of the built-in font: sixteen glyphs of five rows each.
pub const FONTSET_SIZE: usize = 80;

/// The built-in hexadecimal font: the glyph of digit `d` is the five bytes
/// starting at `5 * d`, one byte per row, the leftmost pixel in the high bit.
pub const FONTSET: [u8; FONTSET_SIZE] = [
    0xF0, 0x90, 0x90, 0x90, 0xF0, // 0
    0x20, 0x60, 0x20, 0x20, 0x70, // 1
    0xF0, 0x10, 0xF0, 0x80, 0xF0, // 2
    0xF0, 0x10, 0xF0, 0x10, 0xF0, // 3
    0x90, 0x90, 0xF0, 0x10, 0x10, // 4
    0xF0, 0x80, 0xF0, 0x10, 0xF0, // 5
    0xF0, 0x80, 0xF0, 0x90, 0xF0, // 6
    0xF0, 0x10, 0x20, 0x40, 0x40, // 7
    0xF0, 0x90, 0xF0, 0x90, 0xF0, // 8
    0xF0, 0x90, 0xF0, 0x10, 0xF0, // 9
    0xF0, 0x90, 0xF0, 0x90, 0x90, // A
    0xE0, 0x90, 0xE0, 0x90, 0xE0, // B
    0xF0, 0x80, 0x80, 0x80, 0xF0, // C
    0xE0, 0x90, 0x90, 0x90, 0xE0, // D
    0xF0, 0x80, 0xF0, 0x80, 0xF0, // E
    0xF0, 0x80, 0xF0, 0x80, 0x80, // F
];

} // verus!
