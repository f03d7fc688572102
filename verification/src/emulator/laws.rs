//! What holds of the instruction set, whatever the program.

use vstd::prelude::*;
use super::state::{
    address_operand, blank_display, byte_operand, implemented, lemma_nibbles_bounded, nibbles, sprite_bit, step,
    word_nnn, word_xnn, word_xyn, Chip8Error, MachineState, DISPLAY_HEIGHT, DISPLAY_WIDTH,
    FLAG_REGISTER, REGISTER_COUNT, STACK_LIMIT,
};

verus! {

/// A word made of four nibbles decodes to them.
pub proof fn lemma_decode_xyn(op: u8, x: u8, y: u8, n: u8)
    requires
        op < 16,
        x < 16,
        y < 16,
        n < 16,
    ensures
        nibbles(word_xyn(op, x, y, n)) == (op, x, y, n),
{
    let w = word_xyn(op, x, y, n);
    assert(w == ((op as u16) << 12) | ((x as u16) << 8) | ((y as u16) << 4) | (n as u16));
    assert(((w >> 12) & 0xF) == op as u16 && ((w >> 8) & 0xF) == x as u16 && ((w >> 4) & 0xF)
        == y as u16 && (w & 0xF) == n as u16) by (bit_vector)
        requires
            w == ((op as u16) << 12) | ((x as u16) << 8) | ((y as u16) << 4) | (n as u16),
            op < 16,
            x < 16,
            y < 16,
            n < 16,
    ;
}

/// A word made of two nibbles and a byte decodes to them.
pub proof fn lemma_decode_xnn(op: u8, x: u8, nn: u8)
    requires
        op < 16,
        x < 16,
    ensures
        nibbles(word_xnn(op, x, nn)).0 == op,
        nibbles(word_xnn(op, x, nn)).1 == x,
        byte_operand(word_xnn(op, x, nn)) == nn,
{
    let w = word_xnn(op, x, nn);
    assert(((w >> 12) & 0xF) == op as u16 && ((w >> 8) & 0xF) == x as u16 && (w & 0xFF)
        == nn as u16) by (bit_vector)
        requires
            w == ((op as u16) << 12) | ((x as u16) << 8) | (nn as u16),
            op < 16,
            x < 16,
    ;
}

/// A word made of a nibble and an address decodes to them.
pub proof fn lemma_decode_nnn(op: u8, nnn: u16)
    requires
        op < 16,
        nnn <= 0xFFF,
    ensures
        nibbles(word_nnn(op, nnn)).0 == op,
        address_operand(word_nnn(op, nnn)) == nnn,
{
    let w = word_nnn(op, nnn);
    assert(((w >> 12) & 0xF) == op as u16 && (w & 0xFFF) == nnn) by (bit_vector)
        requires
            w == ((op as u16) << 12) | nnn,
            op < 16,
            nnn <= 0xFFF,
    ;
}

/// Executing an instruction keeps the invariant of the machine: in
/// particular the call stack never holds more than `STACK_LIMIT` addresses.
pub proof fn lemma_step_keeps_wf(s: MachineState, instr: u16, random: u8)
    requires
        s.wf(),
    ensures
        step(s, instr, random) matches Ok(t) ==> t.wf(),
{
    lemma_nibbles_bounded(instr);
}

/// A word is refused as no instruction exactly if it is none of the base
/// set, and no word at all is refused for a register index: the nibbles of
/// a word name registers that exist.
pub proof fn lemma_unimplemented_exactly(s: MachineState, instr: u16, random: u8)
    ensures
        step(s, instr, random) == Err::<MachineState, Chip8Error>(Chip8Error::UnimplementedOpcode)
            <==> !implemented(instr),
        step(s, instr, random) != Err::<MachineState, Chip8Error>(Chip8Error::InvalidRegisterIndex),
{
    lemma_nibbles_bounded(instr);
}

/// Only `RAND` looks at the random byte.
pub proof fn lemma_random_only_in_rand(s: MachineState, instr: u16, r1: u8, r2: u8)
    requires
        nibbles(instr).0 != 0xC,
    ensures
        step(s, instr, r1) == step(s, instr, r2),
{
}

/// `MOV VX, NN` puts exactly `NN` in VX and changes nothing else.
pub proof fn lemma_mov_immediate(s: MachineState, x: u8, nn: u8, random: u8)
    requires
        s.shaped(),
        x < REGISTER_COUNT,
    ensures
        step(s, word_xnn(0x6, x, nn), random) == Ok::<MachineState, Chip8Error>(s.with_reg(x, nn)),
        s.with_reg(x, nn).reg(x) == nn,
{
    lemma_decode_xnn(0x6, x, nn);
}

/// `ADD VX, VY` stores the sum modulo 256 in VX and sets VF to 1 if the sum
/// is above 255 and to 0 if it is not. With VF itself as VX the sum
/// overwrites the flag, and the two agree only for the sums 0 and 257.
pub proof fn lemma_add_registers(s: MachineState, x: u8, y: u8, random: u8)
    requires
        s.shaped(),
        x < REGISTER_COUNT,
        y < REGISTER_COUNT,
        x != FLAG_REGISTER || s.reg(x) + s.reg(y) == 0 || s.reg(x) + s.reg(y) == 257,
    ensures
        step(s, word_xyn(0x8, x, y, 0x4), random) matches Ok(t) && t.reg(x) == (s.reg(x) + s.reg(y))
            % 256 && t.reg(FLAG_REGISTER) == (if s.reg(x) + s.reg(y) > 255 {
            1int
        } else {
            0int
        }),
{
    lemma_decode_xyn(0x8, x, y, 0x4);
}

/// `SUB VX, VY` leaves 0 in VF exactly if VX was below VY. With VF itself as
/// VX the stored value overwrites the flag, and the two agree only where the
/// stored value is zero or not as the flag would be.
pub proof fn lemma_sub_flag(s: MachineState, x: u8, y: u8, random: u8)
    requires
        s.shaped(),
        x < REGISTER_COUNT,
        y < REGISTER_COUNT,
        x != FLAG_REGISTER || (s.reg(x) < s.reg(y) && s.reg(y) - s.reg(x) == 255) || (s.reg(x)
            >= s.reg(y) && s.reg(y) != 0),
    ensures
        step(s, word_xyn(0x8, x, y, 0x5), random) matches Ok(t) && (t.reg(FLAG_REGISTER) == 0
            <==> s.reg(x) < s.reg(y)),
        x != FLAG_REGISTER ==> (step(s, word_xyn(0x8, x, y, 0x5), random) matches Ok(t) && t.reg(
            FLAG_REGISTER,
        ) == (if s.reg(x) < s.reg(y) {
            0int
        } else {
            1int
        })),
{
    lemma_decode_xyn(0x8, x, y, 0x5);
}

/// What `SUB VX, VY` stores in VX is `0xFF - (VY - VX)` if VX was below VY,
/// and the value of VY if it was not. It is the difference of the two
/// modulo 256 exactly if VX was twice VY.
pub proof fn lemma_sub_value(s: MachineState, x: u8, y: u8, random: u8)
    requires
        s.shaped(),
        x < REGISTER_COUNT,
        y < REGISTER_COUNT,
    ensures
        step(s, word_xyn(0x8, x, y, 0x5), random) matches Ok(t) && t.reg(x) == (if s.reg(x) < s.reg(
            y,
        ) {
            0xFF - (s.reg(y) - s.reg(x))
        } else {
            s.reg(y) as int
        }) && (t.reg(x) == (s.reg(x) - s.reg(y)) % 256 <==> s.reg(x) == 2 * s.reg(y)),
{
    lemma_decode_xyn(0x8, x, y, 0x5);
}

/// Whether `SUB VX, VY` followed by `ADD VX, VY` gives VX its value back:
/// where VX is twice VY, or, with VF as VY and another register as VX, where
/// the flag that the subtraction left makes up the difference.
pub open spec fn sub_add_restores(s: MachineState, x: u8, y: u8) -> bool {
    if y == FLAG_REGISTER && x != FLAG_REGISTER {
        (s.reg(x) < s.reg(y) && s.reg(y) == 255) || s.reg(x) == s.reg(y) + 1
    } else {
        s.reg(x) == 2 * s.reg(y)
    }
}

/// `SUB VX, VY` and then `ADD VX, VY` leave in VX the value it had, on
/// exactly the states that `sub_add_restores` names.
pub proof fn lemma_sub_then_add(s: MachineState, x: u8, y: u8, r1: u8, r2: u8)
    requires
        s.shaped(),
        x < REGISTER_COUNT,
        y < REGISTER_COUNT,
    ensures
        step(s, word_xyn(0x8, x, y, 0x5), r1) matches Ok(t) && step(t, word_xyn(0x8, x, y, 0x4), r2)
            matches Ok(u) && (u.reg(x) == s.reg(x) <==> sub_add_restores(s, x, y)),
{
    lemma_decode_xyn(0x8, x, y, 0x5);
    lemma_decode_xyn(0x8, x, y, 0x4);
}

/// Bit `k` of a sprite row, counted from the left, is bit `7 - k` of the
/// byte.
pub proof fn lemma_sprite_bit(row: u8, k: u8)
    requires
        k < 8,
    ensures
        sprite_bit(row, k as int) <==> (row >> ((7 - k) as u8)) & 1 == 1,
{
    let low: u8 = (7 - k) as u8;
    assert((row & (0x80u8 >> k)) != 0 <==> (row >> low) & 1 == 1) by (bit_vector)
        requires
            k < 8,
            low == 7 - k,
    ;
}

/// Whether bit `b` of sprite row `r` is set and falls, inside the display,
/// on a pixel that is lit.
pub open spec fn sprite_hits(s: MachineState, x0: int, y0: int, r: int, b: int) -> bool {
    &&& 0 <= b < 8
    &&& x0 + b < DISPLAY_WIDTH
    &&& sprite_bit(s.memory[s.i + r], b)
    &&& s.display[y0 + r][x0 + b]
}

/// The flag of a draw: VF is 1 if some set bit of one of the rows drawn
/// falls on a lit pixel, and 0 if none does, whatever VF held before. On a
/// blank display it is 0.
pub proof fn lemma_draw_flag(s: MachineState, x: u8, y: u8, n: u8)
    requires
        s.shaped(),
        s.op_draw(x, y, n) is Ok,
    ensures
        s.op_draw(x, y, n) matches Ok(t) && t.reg(FLAG_REGISTER) == (if exists|r: int, b: int|
            0 <= r < s.sprite_rows(y, n) && #[trigger] sprite_hits(
                s,
                s.sprite_x(x),
                s.sprite_y(y),
                r,
                b,
            ) {
            1int
        } else {
            0int
        }),
        s.display == blank_display() ==> (s.op_draw(x, y, n) matches Ok(t) && t.reg(
            FLAG_REGISTER,
        ) == 0),
{
    let x0 = s.sprite_x(x);
    let y0 = s.sprite_y(y);
    let rows = s.sprite_rows(y, n);
    if s.sprite_collides(x0, y0, rows) {
        let (r, c) = choose|r: int, c: int|
            0 <= r < DISPLAY_HEIGHT && 0 <= c < DISPLAY_WIDTH && #[trigger] s.display[r][c]
                && s.sprite_covers(x0, y0, rows, r, c);
        assert(0 <= r - y0 < rows && sprite_hits(s, x0, y0, r - y0, c - x0));
    }
    if exists|r: int, b: int| 0 <= r < rows && #[trigger] sprite_hits(s, x0, y0, r, b) {
        let (r, b) = choose|r: int, b: int| 0 <= r < rows && #[trigger] sprite_hits(s, x0, y0, r, b);
        assert(s.display[y0 + r][x0 + b] && s.sprite_covers(x0, y0, rows, y0 + r, x0 + b));
    }
}

/// Drawing a sprite twice in the same place gives back the display as it
/// was. The first pass sets VF exactly if the sprite met a lit pixel, the
/// second exactly if it met a pixel that was dark before the first: on a
/// display that was blank under the sprite, only the second pass can set it.
/// The place is the same if neither coordinate is read from VF, which the
/// first pass writes.
pub proof fn lemma_op_draw_twice(s: MachineState, x: u8, y: u8, n: u8)
    requires
        s.shaped(),
        s.op_draw(x, y, n) matches Ok(t) && ((x != FLAG_REGISTER && y != FLAG_REGISTER) || (
        t.sprite_x(x) == s.sprite_x(x) && t.sprite_y(y) == s.sprite_y(y))),
    ensures
        s.op_draw(x, y, n) matches Ok(t) && t.op_draw(x, y, n) matches Ok(u) && {
            let x0 = s.sprite_x(x);
            let y0 = s.sprite_y(y);
            let rows = s.sprite_rows(y, n);
            &&& u.display == s.display
            &&& t.reg(FLAG_REGISTER) == (if s.sprite_collides(x0, y0, rows) {
                1int
            } else {
                0int
            })
            &&& u.reg(FLAG_REGISTER) == (if exists|r: int, c: int|
                0 <= r < DISPLAY_HEIGHT && 0 <= c < DISPLAY_WIDTH && !(#[trigger] s.display[r][c])
                    && s.sprite_covers(x0, y0, rows, r, c) {
                1int
            } else {
                0int
            })
        },
{
    let x0 = s.sprite_x(x);
    let y0 = s.sprite_y(y);
    let rows = s.sprite_rows(y, n);
    let t = s.op_draw(x, y, n)->Ok_0;
    assert(t.sprite_x(x) == x0 && t.sprite_y(y) == y0);
    assert(t.sprite_rows(y, n) == rows);
    assert forall|r: int, c: int| t.sprite_covers(x0, y0, rows, r, c) == s.sprite_covers(
        x0,
        y0,
        rows,
        r,
        c,
    ) by {}
    let u = t.op_draw(x, y, n)->Ok_0;
    assert forall|r: int| 0 <= r < DISPLAY_HEIGHT implies #[trigger] u.display[r] == s.display[r] by {
        assert(u.display[r] =~= s.display[r]);
    }
    assert(u.display =~= s.display);
    let dark = exists|r: int, c: int|
        0 <= r < DISPLAY_HEIGHT && 0 <= c < DISPLAY_WIDTH && !(#[trigger] s.display[r][c])
            && s.sprite_covers(x0, y0, rows, r, c);
    if t.sprite_collides(x0, y0, rows) {
        let (r, c) = choose|r: int, c: int|
            0 <= r < DISPLAY_HEIGHT && 0 <= c < DISPLAY_WIDTH && #[trigger] t.display[r][c]
                && t.sprite_covers(x0, y0, rows, r, c);
        assert(!s.display[r][c] && s.sprite_covers(x0, y0, rows, r, c));
    }
    if dark {
        let (r, c) = choose|r: int, c: int|
            0 <= r < DISPLAY_HEIGHT && 0 <= c < DISPLAY_WIDTH && !(#[trigger] s.display[r][c])
                && s.sprite_covers(x0, y0, rows, r, c);
        assert(t.display[r][c] && t.sprite_covers(x0, y0, rows, r, c));
    }
}

/// The same of the instruction: `DRAW VX, VY, N` executed twice in the same
/// place gives back the display as it was.
pub proof fn lemma_draw_twice(s: MachineState, x: u8, y: u8, n: u8, r1: u8, r2: u8)
    requires
        s.shaped(),
        x < REGISTER_COUNT,
        y < REGISTER_COUNT,
        n < 16,
        step(s, word_xyn(0xD, x, y, n), r1) matches Ok(t) && ((x != FLAG_REGISTER && y
            != FLAG_REGISTER) || (t.sprite_x(x) == s.sprite_x(x) && t.sprite_y(y) == s.sprite_y(y))),
    ensures
        step(s, word_xyn(0xD, x, y, n), r1) == s.op_draw(x, y, n),
        step(s, word_xyn(0xD, x, y, n), r1) matches Ok(t) && step(t, word_xyn(0xD, x, y, n), r2)
            matches Ok(u) && u.display == s.display,
{
    lemma_decode_xyn(0xD, x, y, n);
    lemma_op_draw_twice(s, x, y, n);
}

/// `JSR NNN` and then `RTS` lead back to the state right after the fetch of
/// the `JSR`: the program counter is where it was, and so is the stack.
pub proof fn lemma_call_then_return(s: MachineState, nnn: u16, r1: u8, r2: u8)
    requires
        s.can_fetch(),
        nnn <= 0xFFF,
        s.stack.len() < STACK_LIMIT,
    ensures
        step(s.fetched(), word_nnn(0x2, nnn), r1) matches Ok(t) && t.pc == nnn && step(
            t,
            word_xyn(0x0, 0x0, 0xE, 0xE),
            r2,
        ) == Ok::<MachineState, Chip8Error>(s.fetched()),
{
    lemma_decode_nnn(0x2, nnn);
    lemma_decode_xyn(0x0, 0x0, 0xE, 0xE);
    let f = s.fetched();
    let t = step(f, word_nnn(0x2, nnn), r1)->Ok_0;
    assert(t.stack.drop_last() =~= f.stack);
}

/// `JSR NNN` puts one more address on the call stack, and fails with
/// `StackOverflow`, changing nothing, if the stack holds `STACK_LIMIT`
/// addresses already: of seventeen nested calls the last one fails.
pub proof fn lemma_call_depth(s: MachineState, nnn: u16, random: u8)
    requires
        nnn <= 0xFFF,
    ensures
        s.stack.len() < STACK_LIMIT ==> (step(s, word_nnn(0x2, nnn), random) matches Ok(t)
            && t.stack.len() == s.stack.len() + 1),
        s.stack.len() >= STACK_LIMIT ==> step(s, word_nnn(0x2, nnn), random) == Err::<
            MachineState,
            Chip8Error,
        >(Chip8Error::StackOverflow),
{
    lemma_decode_nnn(0x2, nnn);
}

} // verus!
