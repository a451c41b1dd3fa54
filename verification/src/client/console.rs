//! Raw mode on a Windows console: no echo, no line buffering, Ctrl+C delivered
//! as a key, and escape sequences interpreted on output.
use vstd::prelude::*;

verus! {

pub const ENABLE_PROCESSED_INPUT: u32 = 0x1;

pub const ENABLE_LINE_INPUT: u32 = 0x2;

pub const ENABLE_ECHO_INPUT: u32 = 0x4;

pub const ENABLE_VIRTUAL_TERMINAL_PROCESSING: u32 = 0x4;

/// Without it a line that fills the width is followed by an empty one.
pub const DISABLE_NEWLINE_AUTO_RETURN: u32 = 0x8;

/// The modes to put back, for the halves that were changed. A half that is no
/// console was not.
#[derive(Clone, Copy, Debug, PartialEq, Eq, Structural)]
pub struct RawConsole {
    pub input: Option<u32>,
    pub output: Option<u32>,
}

/// The input mode for raw mode: everything as it was but three bits.
pub fn raw_input_mode(was: u32) -> (r: u32)
    ensures
        r == was & !7u32,
        r & (ENABLE_ECHO_INPUT | ENABLE_LINE_INPUT | ENABLE_PROCESSED_INPUT) == 0,
{
    let bits: u32 = ENABLE_ECHO_INPUT | ENABLE_LINE_INPUT | ENABLE_PROCESSED_INPUT;
    assert(4u32 | 2u32 | 1u32 == 7u32) by (bit_vector);
    assert((was & !7u32) & 7u32 == 0) by (bit_vector);
    was & !bits
}

/// The output mode for raw mode: everything as it was and two bits more.
pub fn raw_output_mode(was: u32) -> (r: u32)
    ensures
        r == was | 12u32,
        r & ENABLE_VIRTUAL_TERMINAL_PROCESSING == ENABLE_VIRTUAL_TERMINAL_PROCESSING,
        r & DISABLE_NEWLINE_AUTO_RETURN == DISABLE_NEWLINE_AUTO_RETURN,
{
    assert((was | 4u32 | 8u32) == was | 12u32) by (bit_vector);
    assert((was | 12u32) & 4u32 == 4u32) by (bit_vector);
    assert((was | 12u32) & 8u32 == 8u32) by (bit_vector);
    was | ENABLE_VIRTUAL_TERMINAL_PROCESSING | DISABLE_NEWLINE_AUTO_RETURN
}

/// Which halves have to be put back: those whose mode was read and could then be
/// changed.
pub fn entered(
    input: Option<u32>,
    input_set: bool,
    output: Option<u32>,
    output_set: bool,
) -> (r: RawConsole)
    ensures
        r.input == (if input_set {
            input
        } else {
            None
        }),
        r.output == (if output_set {
            output
        } else {
            None
        }),
{
    RawConsole {
        input: if input_set {
            input
        } else {
            None
        },
        output: if output_set {
            output
        } else {
            None
        },
    }
}

/// The cursor's row and column counted from one, relative to the visible window.
pub fn cursor_position(x: i16, y: i16, left: i16, top: i16) -> (r: (u16, u16))
    requires
        i16::MIN <= y - top <= i16::MAX,
        i16::MIN <= x - left <= i16::MAX,
    ensures
        r.0 == (if y > top {
            y - top + 1
        } else {
            1
        }),
        r.1 == (if x > left {
            x - left + 1
        } else {
            1
        }),
{
    let row: i16 = y - top;
    let col: i16 = x - left;
    (
        if row > 0 {
            row as u16 + 1
        } else {
            1
        },
        if col > 0 {
            col as u16 + 1
        } else {
            1
        },
    )
}

} // verus!
