//! A CHIP-8 virtual machine: the interpreter and the state it owns, a
//! disassembler for its instruction words, and the glue between the machine
//! and a host's screen and keyboard.

pub mod disassembler;
pub mod driver;
pub mod emulator;

use vstd::prelude::*;
use crate::emulator::state::{MachineState, DISPLAY_HEIGHT, DISPLAY_WIDTH};
use crate::emulator::{display_rows, Chip8};

verus! {

/// A square of the host's screen that stands for one pixel of the display.
#[derive(Clone, Copy, Debug, PartialEq, Eq)]
pub struct PixelRect {
    /// Left edge, in screen units.
    pub x: i32,
    /// Upper edge, in screen units.
    pub y: i32,
    /// Length of a side.
    pub size: u32,
    /// Whether the pixel is on.
    pub lit: bool,
}

/// The square for the pixel in row `r` and column `c`, with `pixel_size`
/// screen units to a pixel.
pub open spec fn pixel_rect(rows: Seq<Seq<bool>>, pixel_size: u32, r: int, c: int) -> PixelRect {
    PixelRect { x: (c * pixel_size) as i32, y: (r * pixel_size) as i32, size: pixel_size, lit: rows[r][c] }
}

/// The squares to paint for a display, row by row from the top and from left
/// to right within a row. The rightmost square must start inside the range
/// of an `i32`.
pub fn display_chip8(ch8display: [[bool; DISPLAY_WIDTH]; DISPLAY_HEIGHT], pixel_size: u32) -> (rects:
    Vec<PixelRect>)
    requires
        (DISPLAY_WIDTH - 1) * pixel_size <= i32::MAX,
    ensures
        rects@.len() == DISPLAY_HEIGHT * DISPLAY_WIDTH,
        forall|r: int, c: int|
            0 <= r < DISPLAY_HEIGHT && 0 <= c < DISPLAY_WIDTH ==> #[trigger] rects@[r * DISPLAY_WIDTH
                + c] == pixel_rect(display_rows(ch8display), pixel_size, r, c),
{
    let mut rects: Vec<PixelRect> = Vec::new();
    let mut y: usize = 0;
    while y < DISPLAY_HEIGHT
        invariant
            y <= DISPLAY_HEIGHT,
            (DISPLAY_WIDTH - 1) * pixel_size <= i32::MAX,
            rects@.len() == y * DISPLAY_WIDTH,
            forall|r: int, c: int|
                0 <= r < y && 0 <= c < DISPLAY_WIDTH ==> #[trigger] rects@[r * DISPLAY_WIDTH + c]
                    == pixel_rect(display_rows(ch8display), pixel_size, r, c),
        decreases DISPLAY_HEIGHT - y,
    {
        let mut x: usize = 0;
        while x < DISPLAY_WIDTH
            invariant
                y < DISPLAY_HEIGHT,
                x <= DISPLAY_WIDTH,
                (DISPLAY_WIDTH - 1) * pixel_size <= i32::MAX,
                rects@.len() == y * DISPLAY_WIDTH + x,
                forall|r: int, c: int|
                    0 <= r < DISPLAY_HEIGHT && 0 <= c < DISPLAY_WIDTH && (r < y || (r == y && c < x))
                        ==> #[trigger] rects@[r * DISPLAY_WIDTH + c] == pixel_rect(
                        display_rows(ch8display),
                        pixel_size,
                        r,
                        c,
                    ),
            decreases DISPLAY_WIDTH - x,
        {
            assert(x * pixel_size <= (DISPLAY_WIDTH - 1) * pixel_size && y * pixel_size <= (
            DISPLAY_WIDTH - 1) * pixel_size) by (nonlinear_arith)
                requires
                    x <= DISPLAY_WIDTH - 1,
                    y <= DISPLAY_WIDTH - 1,
            ;
            let side: u64 = pixel_size as u64;
            rects.push(
                PixelRect {
                    x: (x as u64 * side) as i32,
                    y: (y as u64 * side) as i32,
                    size: pixel_size,
                    lit: ch8display[y][x],
                },
            );
            x = x + 1;
        }
        y = y + 1;
    }
    rects
}

/// A key of the host's keyboard that stands for a key of the pad.
#[derive(Clone, Copy, Debug, PartialEq, Eq)]
pub enum HostKey {
    Num1,
    Num2,
    Num3,
    Num4,
    Q,
    W,
    E,
    R,
    A,
    S,
    D,
    F,
    Y,
    X,
    C,
    V,
}

/// A key of the host's keyboard going down or up.
#[derive(Clone, Copy, Debug, PartialEq, Eq)]
pub struct KeyEvent {
    pub key: HostKey,
    /// `true` for a key that goes down.
    pub pressed: bool,
}

/// The key of the pad that a key of the host's keyboard stands for: the
/// four by four block from `1` to `V`, row by row.
pub open spec fn pad_key(key: HostKey) -> u8 {
    match key {
        HostKey::Num1 => 0x0,
        HostKey::Num2 => 0x1,
        HostKey::Num3 => 0x2,
        HostKey::Num4 => 0x3,
        HostKey::Q => 0x4,
        HostKey::W => 0x5,
        HostKey::E => 0x6,
        HostKey::R => 0x7,
        HostKey::A => 0x8,
        HostKey::S => 0x9,
        HostKey::D => 0xA,
        HostKey::F => 0xB,
        HostKey::Y => 0xC,
        HostKey::X => 0xD,
        HostKey::C => 0xE,
        HostKey::V => 0xF,
    }
}

/// The key of the pad that a key of the host's keyboard stands for.
pub fn key_index(key: HostKey) -> (k: u8)
    ensures
        k == pad_key(key),
        k < 16,
{
    match key {
        HostKey::Num1 => 0x0,
        HostKey::Num2 => 0x1,
        HostKey::Num3 => 0x2,
        HostKey::Num4 => 0x3,
        HostKey::Q => 0x4,
        HostKey::W => 0x5,
        HostKey::E => 0x6,
        HostKey::R => 0x7,
        HostKey::A => 0x8,
        HostKey::S => 0x9,
        HostKey::D => 0xA,
        HostKey::F => 0xB,
        HostKey::Y => 0xC,
        HostKey::X => 0xD,
        HostKey::C => 0xE,
        HostKey::V => 0xF,
    }
}

/// The state after the events in `events` have reached the pad, one after
/// the other.
pub open spec fn after_events(s: MachineState, events: Seq<KeyEvent>) -> MachineState
    decreases events.len(),
{
    if events.len() == 0 {
        s
    } else {
        after_events(s, events.drop_last()).with_key(pad_key(events.last().key), events.last().pressed)
    }
}

/// Hands the key events of the host to the pad, in their order. A later
/// event for a key overrides the ones before it.
pub fn update_keys(ch8: &mut Chip8, events: &Vec<KeyEvent>) -> (res: Result<(), ()>)
    ensures
        res is Ok,
        final(ch8)@ == after_events(old(ch8)@, events@),
        old(ch8)@.wf() ==> final(ch8)@.wf(),
{
    let mut k: usize = 0;
    while k < events.len()
        invariant
            k <= events.len(),
            ch8@ == after_events(old(ch8)@, events@.take(k as int)),
            old(ch8)@.wf() ==> ch8@.wf(),
        decreases events.len() - k,
    {
        let event = events[k];
        let sent = ch8.update_key(key_index(event.key), event.pressed);
        proof {
            let next = events@.take(k + 1);
            assert(next.drop_last() =~= events@.take(k as int));
            assert(next.last() == event);
        }
        k = k + 1;
    }
    assert(events@.take(k as int) =~= events@);
    Ok(())
}

/// The usual font: the sixteen hexadecimal digits, five rows each.
pub open spec fn default_font() -> Seq<u8> {
    seq![
        0xF0u8, 0x90, 0x90, 0x90, 0xF0,
        0x20, 0x60, 0x20, 0x20, 0x70,
        0xF0, 0x10, 0xF0, 0x80, 0xF0,
        0xF0, 0x10, 0xF0, 0x10, 0xF0,
        0x90, 0x90, 0xF0, 0x10, 0x10,
        0xF0, 0x80, 0xF0, 0x10, 0xF0,
        0xF0, 0x80, 0xF0, 0x90, 0xF0,
        0xF0, 0x10, 0x20, 0x40, 0x40,
        0xF0, 0x90, 0xF0, 0x90, 0xF0,
        0xF0, 0x90, 0xF0, 0x10, 0xF0,
        0xF0, 0x90, 0xF0, 0x90, 0x90,
        0xE0, 0x90, 0xE0, 0x90, 0xE0,
        0xF0, 0x80, 0x80, 0x80, 0xF0,
        0xE0, 0x90, 0x90, 0x90, 0xE0,
        0xF0, 0x80, 0xF0, 0x80, 0xF0,
        0xF0, 0x80, 0xF0, 0x80, 0x80,
    ]
}

/// The usual font, ready for `Chip8::load_font`.
pub fn get_default_font() -> (font: Vec<u8>)
    ensures
        font@ == default_font(),
{
    let font: Vec<u8> = vec![
        0xF0u8, 0x90, 0x90, 0x90, 0xF0,
        0x20, 0x60, 0x20, 0x20, 0x70,
        0xF0, 0x10, 0xF0, 0x80, 0xF0,
        0xF0, 0x10, 0xF0, 0x10, 0xF0,
        0x90, 0x90, 0xF0, 0x10, 0x10,
        0xF0, 0x80, 0xF0, 0x10, 0xF0,
        0xF0, 0x80, 0xF0, 0x90, 0xF0,
        0xF0, 0x10, 0x20, 0x40, 0x40,
        0xF0, 0x90, 0xF0, 0x90, 0xF0,
        0xF0, 0x90, 0xF0, 0x10, 0xF0,
        0xF0, 0x90, 0xF0, 0x90, 0x90,
        0xE0, 0x90, 0xE0, 0x90, 0xE0,
        0xF0, 0x80, 0x80, 0x80, 0xF0,
        0xE0, 0x90, 0x90, 0x90, 0xE0,
        0xF0, 0x80, 0xF0, 0x80, 0xF0,
        0xF0, 0x80, 0xF0, 0x80, 0x80,
    ];
    assert(font@ =~= default_font());
    font
}

} // verus!
