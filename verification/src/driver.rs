//! What the loop that drives a machine has to decide between two
//! instructions.

use vstd::prelude::*;
use crate::emulator::state::nibbles;
use crate::emulator::Chip8;

verus! {

/// Ticks of the timer clock in one second.
pub const TICKS_PER_SECOND: u64 = 60;

/// Nanoseconds in one second.
pub const NANOS_PER_SECOND: u64 = 1_000_000_000;

/// Whether an instruction word is one of the two that change the display:
/// the sprite draw and the clear screen.
pub open spec fn changes_display(instr: u16) -> bool {
    nibbles(instr).0 == 0xD || nibbles(instr) == (0x0u8, 0x0u8, 0xEu8, 0x0u8)
}

/// Whether the display is to be painted anew after this instruction.
pub fn redraws(instr: u16) -> (b: bool)
    ensures
        b == changes_display(instr),
{
    let n: (u8, u8, u8, u8) = Chip8::decode_to_nibbles(instr);
    match n {
        (0xD, _, _, _) => true,
        (0x0, 0x0, 0xE, 0x0) => true,
        _ => false,
    }
}

/// The number of timer ticks that fit in `elapsed_nanos` nanoseconds.
pub open spec fn ticks_in(elapsed_nanos: u64) -> int {
    elapsed_nanos * TICKS_PER_SECOND / (NANOS_PER_SECOND as int)
}

/// The number of timer ticks that are due when the machine has run for
/// `elapsed_nanos` nanoseconds and `ticks_done` ticks were made: the timers
/// follow the clock, however many instructions were run meanwhile.
pub fn ticks_due(elapsed_nanos: u64, ticks_done: u64) -> (n: u64)
    ensures
        n == if ticks_in(elapsed_nanos) > ticks_done {
            ticks_in(elapsed_nanos) - ticks_done
        } else {
            0
        },
{
    assert(TICKS_PER_SECOND == 60 && NANOS_PER_SECOND == 1_000_000_000);
    let scaled: u128 = (elapsed_nanos as u128) * 60;
    let total: u128 = scaled / 1_000_000_000;
    assert(total == ticks_in(elapsed_nanos));
    assert(total <= elapsed_nanos);
    if total > ticks_done as u128 {
        (total - ticks_done as u128) as u64
    } else {
        0
    }
}

} // verus!
