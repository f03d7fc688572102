//! The mathematical model of the machine: its state as sequences and
//! integers, and the effect of one instruction as a function on that state.

use vstd::prelude::*;

verus! {

/// Number of addressable bytes.
pub const MEMORY_SIZE: usize = 0xFFF;

/// Address at which programs are loaded and at which execution starts.
pub const PROGRAM_START: u16 = 0x200;

/// Number of general registers, V0 to VF.
pub const REGISTER_COUNT: usize = 16;

/// Index of VF, the register that doubles as the flag.
pub const FLAG_REGISTER: u8 = 0xF;

/// Largest number of return addresses the call stack holds.
pub const STACK_LIMIT: usize = 16;

/// Number of keys on the pad.
pub const KEY_COUNT: usize = 16;

/// Pixels in one row of the display.
pub const DISPLAY_WIDTH: usize = 64;

/// Rows of the display.
pub const DISPLAY_HEIGHT: usize = 32;

/// Why an operation of the machine did not take place.
#[derive(Clone, Copy, Debug, PartialEq, Eq, Structural)]
pub enum Chip8Error {
    /// An address left the addressable range.
    OutOfBoundsFetch,
    /// A call was made with the call stack full.
    StackOverflow,
    /// A return was made with the call stack empty.
    StackUnderflow,
    /// A register index was not below sixteen.
    InvalidRegisterIndex,
    /// The word is no instruction of the base set.
    UnimplementedOpcode,
    /// A key index read from a register was not below sixteen.
    InvalidKeyIndex,
}

/// The state of a machine, as the contracts see it.
#[verifier::ext_equal]
pub struct MachineState {
    pub memory: Seq<u8>,
    pub freq: u32,
    pub pc: u16,
    pub i: u16,
    pub stack: Seq<u16>,
    pub regs: Seq<u8>,
    pub display: Seq<Seq<bool>>,
    pub delay_timer: u8,
    pub sound_timer: u8,
    pub keys: Seq<bool>,
}

/// The four nibbles of an instruction word, most significant first.
pub open spec fn nibbles(instr: u16) -> (u8, u8, u8, u8) {
    (
        ((instr >> 12) & 0xF) as u8,
        ((instr >> 8) & 0xF) as u8,
        ((instr >> 4) & 0xF) as u8,
        (instr & 0xF) as u8,
    )
}

/// The low byte of an instruction word.
pub open spec fn byte_operand(instr: u16) -> u8 {
    (instr & 0xFF) as u8
}

/// The low twelve bits of an instruction word.
pub open spec fn address_operand(instr: u16) -> u16 {
    instr & 0xFFF
}

/// The instruction word with the nibbles `op`, `x`, `y` and `n`, most
/// significant first.
pub open spec fn word_xyn(op: u8, x: u8, y: u8, n: u8) -> u16 {
    ((op as u16) << 12) | ((x as u16) << 8) | ((y as u16) << 4) | (n as u16)
}

/// The instruction word with the nibbles `op` and `x` and the byte `nn`.
pub open spec fn word_xnn(op: u8, x: u8, nn: u8) -> u16 {
    ((op as u16) << 12) | ((x as u16) << 8) | (nn as u16)
}

/// The instruction word with the nibble `op` and the address `nnn`.
pub open spec fn word_nnn(op: u8, nnn: u16) -> u16 {
    ((op as u16) << 12) | nnn
}

/// Each nibble of a word is below sixteen, its byte operand has eight bits
/// and its address operand twelve.
pub proof fn lemma_nibbles_bounded(instr: u16)
    ensures
        nibbles(instr).0 < 16,
        nibbles(instr).1 < 16,
        nibbles(instr).2 < 16,
        nibbles(instr).3 < 16,
        nibbles(instr).0 == instr >> 12,
        instr & 0xFF < 0x100,
        address_operand(instr) <= 0xFFF,
{
    assert((instr >> 12) & 0xF < 16 && (instr >> 8) & 0xF < 16 && (instr >> 4) & 0xF < 16 && instr
        & 0xF < 16 && (instr >> 12) & 0xF == instr >> 12 && instr & 0xFF < 0x100 && instr & 0xFFF
        <= 0xFFF) by (bit_vector);
}

/// A display with every pixel off.
pub open spec fn blank_display() -> Seq<Seq<bool>> {
    Seq::new(DISPLAY_HEIGHT as nat, |r: int| Seq::new(DISPLAY_WIDTH as nat, |c: int| false))
}

/// The state of a machine that was just created.
pub open spec fn initial_state() -> MachineState {
    MachineState {
        memory: Seq::new(MEMORY_SIZE as nat, |a: int| 0u8),
        freq: 700,
        pc: PROGRAM_START,
        i: 0x50,
        stack: Seq::empty(),
        regs: Seq::new(REGISTER_COUNT as nat, |r: int| 0u8),
        display: blank_display(),
        delay_timer: 60,
        sound_timer: 60,
        keys: Seq::new(KEY_COUNT as nat, |k: int| false),
    }
}

/// `memory` with the first `limit` bytes of `bytes`, or all of them if they
/// are fewer, written from address `at` on.
pub open spec fn write_bytes(memory: Seq<u8>, at: int, bytes: Seq<u8>, limit: int) -> Seq<u8> {
    Seq::new(
        memory.len(),
        |a: int|
            if at <= a < at + bytes.len() && a < at + limit {
                bytes[a - at]
            } else {
                memory[a]
            },
    )
}

/// Bit `k` of a sprite row, counted from the most significant bit.
pub open spec fn sprite_bit(row: u8, k: int) -> bool {
    0 <= k < 8 && (row & (0x80u8 >> (k as u8))) != 0
}

/// One step of a timer: down by one, and never below zero.
pub open spec fn ticked(t: u8) -> u8 {
    if t > 0 {
        (t - 1) as u8
    } else {
        0
    }
}

impl MachineState {
    /// The sizes of the parts of a machine: they hold of every machine
    /// there is.
    pub open spec fn shaped(self) -> bool {
        &&& self.memory.len() == MEMORY_SIZE
        &&& self.regs.len() == REGISTER_COUNT
        &&& self.keys.len() == KEY_COUNT
        &&& self.display.len() == DISPLAY_HEIGHT
        &&& forall|r: int| 0 <= r < DISPLAY_HEIGHT ==> (#[trigger] self.display[r]).len() == DISPLAY_WIDTH
    }

    /// The invariant of a machine: its shape, a call stack of at most
    /// `STACK_LIMIT` addresses, and twelve-bit values in `I` and on the
    /// stack.
    pub open spec fn wf(self) -> bool {
        &&& self.shaped()
        &&& self.stack.len() <= STACK_LIMIT
        &&& forall|k: int| 0 <= k < self.stack.len() ==> #[trigger] self.stack[k] <= 0xFFF
        &&& self.i <= 0xFFF
    }

    /// The value of register `x`.
    pub open spec fn reg(self, x: u8) -> u8 {
        self.regs[x as int]
    }

    /// The state with `v` in register `x`.
    pub open spec fn with_reg(self, x: u8, v: u8) -> MachineState {
        MachineState { regs: self.regs.update(x as int, v), ..self }
    }

    /// The state with `v` in VF.
    pub open spec fn with_flag(self, v: u8) -> MachineState {
        self.with_reg(FLAG_REGISTER, v)
    }

    /// The state with the program counter at `pc`.
    pub open spec fn with_pc(self, pc: u16) -> MachineState {
        MachineState { pc, ..self }
    }

    /// The state with `i` in the index register.
    pub open spec fn with_i(self, i: u16) -> MachineState {
        MachineState { i, ..self }
    }

    /// The state with key `key` pressed or released.
    pub open spec fn with_key(self, key: u8, pressed: bool) -> MachineState {
        MachineState { keys: self.keys.update(key as int, pressed), ..self }
    }

    /// The word that the next fetch reads: the bytes at `pc` and `pc + 1`,
    /// the first one in the high half.
    pub open spec fn word_at_pc(self) -> u16 {
        ((self.memory[self.pc as int] as u16) << 8) | (self.memory[self.pc + 1] as u16)
    }

    /// Whether both bytes of the next instruction lie in memory.
    pub open spec fn can_fetch(self) -> bool {
        self.pc + 1 < MEMORY_SIZE
    }

    /// The state after a fetch.
    pub open spec fn fetched(self) -> MachineState {
        self.with_pc((self.pc + 2) as u16)
    }

    /// The state after one tick of the sixty-hertz clock.
    pub open spec fn tick(self) -> MachineState {
        MachineState {
            delay_timer: ticked(self.delay_timer),
            sound_timer: ticked(self.sound_timer),
            ..self
        }
    }

    /// The next instruction is passed over if `taken` holds. A program
    /// counter that would leave its sixteen bits is an error.
    pub open spec fn skip_if(self, taken: bool) -> Result<MachineState, Chip8Error> {
        if !taken {
            Ok(self)
        } else if self.pc > 0xFFFD {
            Err(Chip8Error::OutOfBoundsFetch)
        } else {
            Ok(self.with_pc((self.pc + 2) as u16))
        }
    }

    /// Return from a subroutine.
    pub open spec fn op_return(self) -> Result<MachineState, Chip8Error> {
        if self.stack.len() == 0 {
            Err(Chip8Error::StackUnderflow)
        } else {
            Ok(MachineState { pc: self.stack.last(), stack: self.stack.drop_last(), ..self })
        }
    }

    /// Push a return address: its low twelve bits go on top of the call
    /// stack. A stack that holds `STACK_LIMIT` addresses takes no more.
    pub open spec fn pushed(self, val: u16) -> Result<MachineState, Chip8Error> {
        if self.stack.len() >= STACK_LIMIT {
            Err(Chip8Error::StackOverflow)
        } else {
            Ok(MachineState { stack: self.stack.push((val % 0x1000) as u16), ..self })
        }
    }

    /// Call the subroutine at `addr`: the program counter is pushed, then
    /// set to `addr`.
    pub open spec fn op_call(self, addr: u16) -> Result<MachineState, Chip8Error> {
        match self.pushed(self.pc) {
            Ok(t) => Ok(t.with_pc(addr)),
            Err(e) => Err(e),
        }
    }

    /// `VX += VY`, with the carry in VF. The flag is written first.
    pub open spec fn op_add(self, x: u8, y: u8) -> MachineState {
        let sum = self.reg(x) + self.reg(y);
        self.with_flag(if sum > 0xFF { 1u8 } else { 0u8 }).with_reg(x, (sum % 0x100) as u8)
    }

    /// What a subtraction with minuend `a` and subtrahend `b` stores: with
    /// `diff` the distance between the two, `0xFF - diff` if `a` is below
    /// `b`, and `a - diff` otherwise.
    pub open spec fn difference(a: u8, b: u8) -> u8 {
        let diff = if a < b { b - a } else { a - b };
        if a < b {
            (0xFF - diff) as u8
        } else {
            (a - diff) as u8
        }
    }

    /// `VX -= VY`: VF is 0 if VX was below VY and 1 otherwise. The flag is
    /// written first.
    pub open spec fn op_sub(self, x: u8, y: u8) -> MachineState {
        let vx = self.reg(x);
        let vy = self.reg(y);
        self.with_flag(if vx < vy { 0u8 } else { 1u8 }).with_reg(x, Self::difference(vx, vy))
    }

    /// `VX := VY - VX`: VF is 0 if VY was below VX and 1 otherwise. The flag
    /// is written first.
    pub open spec fn op_reverse_sub(self, x: u8, y: u8) -> MachineState {
        let vx = self.reg(x);
        let vy = self.reg(y);
        self.with_flag(if vy < vx { 0u8 } else { 1u8 }).with_reg(x, Self::difference(vy, vx))
    }

    /// Shift right: VF takes the lowest bit that VX held, and VX the value
    /// of VY shifted by one.
    pub open spec fn op_shift_right(self, x: u8, y: u8) -> MachineState {
        let vx = self.reg(x);
        let vy = self.reg(y);
        self.with_flag(vx % 2).with_reg(x, vy / 2)
    }

    /// Shift left: VF takes the highest bit that VX held, and VX the value
    /// of VY shifted by one.
    pub open spec fn op_shift_left(self, x: u8, y: u8) -> MachineState {
        let vx = self.reg(x);
        let vy = self.reg(y);
        self.with_flag(vx / 0x80).with_reg(x, ((vy * 2) % 0x100) as u8)
    }

    /// `I += VX`, with VF set if the sum leaves twelve bits.
    pub open spec fn op_add_index(self, x: u8) -> MachineState {
        let sum = self.i + self.reg(x);
        self.with_flag(if sum > 0xFFF { 1u8 } else { 0u8 }).with_i((sum % 0x1000) as u16)
    }

    /// Whether key `k` is pressed and no key below it is.
    pub open spec fn first_pressed(self, k: int) -> bool {
        &&& 0 <= k < KEY_COUNT
        &&& self.keys[k]
        &&& forall|j: int| 0 <= j < k ==> !(#[trigger] self.keys[j])
    }

    /// Wait for a key: VX takes the index of the first pressed key. With no
    /// key pressed the program counter goes back by one instruction, so
    /// that the wait is fetched again.
    pub open spec fn op_wait_key(self, x: u8) -> Result<MachineState, Chip8Error> {
        if exists|k: int| self.first_pressed(k) {
            Ok(self.with_reg(x, (choose|k: int| self.first_pressed(k)) as u8))
        } else if self.pc < 2 {
            Err(Chip8Error::OutOfBoundsFetch)
        } else {
            Ok(self.with_pc((self.pc - 2) as u16))
        }
    }

    /// Skip the next instruction if the key named by VX is, or is not,
    /// pressed.
    pub open spec fn op_skip_key(self, x: u8, pressed: bool) -> Result<MachineState, Chip8Error> {
        let key = self.reg(x);
        if key >= KEY_COUNT {
            Err(Chip8Error::InvalidKeyIndex)
        } else {
            self.skip_if(self.keys[key as int] == pressed)
        }
    }

    /// Whether the sprite of `rows` rows drawn at column `x0` and row `y0`
    /// has a set bit on the pixel in row `r` and column `c`.
    pub open spec fn sprite_covers(self, x0: int, y0: int, rows: int, r: int, c: int) -> bool {
        &&& y0 <= r < y0 + rows
        &&& x0 <= c < x0 + 8
        &&& sprite_bit(self.memory[self.i + (r - y0)], c - x0)
    }

    /// The display after that sprite was drawn: a pixel under a set bit is
    /// flipped, every other pixel stays.
    pub open spec fn drawn_display(self, x0: int, y0: int, rows: int) -> Seq<Seq<bool>> {
        Seq::new(
            DISPLAY_HEIGHT as nat,
            |r: int|
                Seq::new(
                    DISPLAY_WIDTH as nat,
                    |c: int| self.display[r][c] != self.sprite_covers(x0, y0, rows, r, c),
                ),
        )
    }

    /// Whether that sprite turns a lit pixel off.
    pub open spec fn sprite_collides(self, x0: int, y0: int, rows: int) -> bool {
        exists|r: int, c: int|
            0 <= r < DISPLAY_HEIGHT && 0 <= c < DISPLAY_WIDTH && #[trigger] self.display[r][c]
                && self.sprite_covers(x0, y0, rows, r, c)
    }

    /// Column at which `DRAW VX, VY, N` puts the left edge of the sprite.
    pub open spec fn sprite_x(self, x: u8) -> int {
        self.reg(x) as int % (DISPLAY_WIDTH as int)
    }

    /// Row at which `DRAW VX, VY, N` puts the top of the sprite.
    pub open spec fn sprite_y(self, y: u8) -> int {
        self.reg(y) as int % (DISPLAY_HEIGHT as int)
    }

    /// Number of sprite rows that `DRAW VX, VY, N` reads and draws: the low
    /// nibble of `n`, cut at the lower edge of the display.
    pub open spec fn sprite_rows(self, y: u8, n: u8) -> int {
        if n % 16 <= DISPLAY_HEIGHT - self.sprite_y(y) {
            n as int % 16
        } else {
            DISPLAY_HEIGHT - self.sprite_y(y)
        }
    }

    /// `DRAW VX, VY, N`. The anchor wraps into the display, the sprite has
    /// as many rows as the low nibble of `n` says and is cut at the right
    /// and lower edges, and VF is 1 if a lit pixel went off and 0 if none
    /// did, whatever it held. A register that does not exist and a sprite
    /// row outside memory are errors.
    pub open spec fn op_draw(self, x: u8, y: u8, n: u8) -> Result<MachineState, Chip8Error> {
        let x0 = self.sprite_x(x);
        let y0 = self.sprite_y(y);
        let rows = self.sprite_rows(y, n);
        if x >= REGISTER_COUNT || y >= REGISTER_COUNT {
            Err(Chip8Error::InvalidRegisterIndex)
        } else if self.i + rows > MEMORY_SIZE {
            Err(Chip8Error::OutOfBoundsFetch)
        } else {
            Ok(
                MachineState {
                    display: self.drawn_display(x0, y0, rows),
                    regs: self.regs.update(
                        FLAG_REGISTER as int,
                        if self.sprite_collides(x0, y0, rows) {
                            1u8
                        } else {
                            0u8
                        },
                    ),
                    ..self
                },
            )
        }
    }
}

/// Whether a word is an instruction of the base set: one that `step`
/// executes.
pub open spec fn implemented(instr: u16) -> bool {
    match nibbles(instr) {
        (0x0, 0x0, 0xE, 0x0) => true,
        (0x0, 0x0, 0xE, 0xE) => true,
        (0x1, _, _, _) => true,
        (0x2, _, _, _) => true,
        (0x3, _, _, _) => true,
        (0x4, _, _, _) => true,
        (0x5, _, _, 0x0) => true,
        (0x6, _, _, _) => true,
        (0x7, _, _, _) => true,
        (0x8, _, _, 0x0) => true,
        (0x8, _, _, 0x1) => true,
        (0x8, _, _, 0x2) => true,
        (0x8, _, _, 0x3) => true,
        (0x8, _, _, 0x4) => true,
        (0x8, _, _, 0x5) => true,
        (0x8, _, _, 0x6) => true,
        (0x8, _, _, 0x7) => true,
        (0x8, _, _, 0xE) => true,
        (0x9, _, _, 0x0) => true,
        (0xA, _, _, _) => true,
        (0xB, _, _, _) => true,
        (0xC, _, _, _) => true,
        (0xD, _, _, _) => true,
        (0xE, _, 0x9, 0xE) => true,
        (0xE, _, 0xA, 0x1) => true,
        (0xF, _, 0x0, 0x7) => true,
        (0xF, _, 0x0, 0xA) => true,
        (0xF, _, 0x1, 0x5) => true,
        (0xF, _, 0x1, 0x8) => true,
        (0xF, _, 0x1, 0xE) => true,
        _ => false,
    }
}

/// Whether a call that returned `res` and left the machine in `after` did
/// what `outcome` asks of a machine in `before`: on `Ok` the machine is in the
/// new state, on `Err` the error is returned and the machine is as it was.
pub open spec fn agrees(
    outcome: Result<MachineState, Chip8Error>,
    before: MachineState,
    after: MachineState,
    res: Result<(), Chip8Error>,
) -> bool {
    match outcome {
        Ok(next) => res is Ok && after == next,
        Err(e) => res == Err::<(), Chip8Error>(e) && after == before,
    }
}

/// The effect of executing the instruction word `instr`, where `random` is
/// the byte that the random source gives. `Err` leaves the machine as it
/// was.
///
/// Where the dialects of the instruction set differ, this one is fixed: the
/// shifts take the flag from VX and the value from VY, the jump with offset
/// adds V0, and `ADI` sets VF when the sum leaves twelve bits. A register
/// operation that sets VF writes the flag before the result, so with VF as
/// VX the result is what stays.
pub open spec fn step(s: MachineState, instr: u16, random: u8) -> Result<MachineState, Chip8Error> {
    let n = nibbles(instr);
    let x = n.1;
    let y = n.2;
    let nn = byte_operand(instr);
    let nnn = address_operand(instr);
    let vx = s.reg(x);
    let vy = s.reg(y);
    match n {
        (0x0, 0x0, 0xE, 0x0) => Ok(MachineState { display: blank_display(), ..s }),
        (0x0, 0x0, 0xE, 0xE) => s.op_return(),
        (0x1, _, _, _) => Ok(s.with_pc(nnn)),
        (0x2, _, _, _) => s.op_call(nnn),
        (0x3, _, _, _) => s.skip_if(vx == nn),
        (0x4, _, _, _) => s.skip_if(vx != nn),
        (0x5, _, _, 0x0) => s.skip_if(vx == vy),
        (0x6, _, _, _) => Ok(s.with_reg(x, nn)),
        (0x7, _, _, _) => Ok(s.with_reg(x, ((vx + nn) % 0x100) as u8)),
        (0x8, _, _, 0x0) => Ok(s.with_reg(x, vy)),
        (0x8, _, _, 0x1) => Ok(s.with_reg(x, vx | vy)),
        (0x8, _, _, 0x2) => Ok(s.with_reg(x, vx & vy)),
        (0x8, _, _, 0x3) => Ok(s.with_reg(x, vx ^ vy)),
        (0x8, _, _, 0x4) => Ok(s.op_add(x, y)),
        (0x8, _, _, 0x5) => Ok(s.op_sub(x, y)),
        (0x8, _, _, 0x6) => Ok(s.op_shift_right(x, y)),
        (0x8, _, _, 0x7) => Ok(s.op_reverse_sub(x, y)),
        (0x8, _, _, 0xE) => Ok(s.op_shift_left(x, y)),
        (0x9, _, _, 0x0) => s.skip_if(vx != vy),
        (0xA, _, _, _) => Ok(s.with_i(nnn)),
        (0xB, _, _, _) => Ok(s.with_pc((nnn + s.reg(0)) as u16)),
        (0xC, _, _, _) => Ok(s.with_reg(x, random & nn)),
        (0xD, _, _, _) => s.op_draw(x, y, n.3),
        (0xE, _, 0x9, 0xE) => s.op_skip_key(x, true),
        (0xE, _, 0xA, 0x1) => s.op_skip_key(x, false),
        (0xF, _, 0x0, 0x7) => Ok(s.with_reg(x, s.delay_timer)),
        (0xF, _, 0x0, 0xA) => s.op_wait_key(x),
        (0xF, _, 0x1, 0x5) => Ok(MachineState { delay_timer: vx, ..s }),
        (0xF, _, 0x1, 0x8) => Ok(MachineState { sound_timer: vx, ..s }),
        (0xF, _, 0x1, 0xE) => Ok(s.op_add_index(x)),
        _ => Err(Chip8Error::UnimplementedOpcode),
    }
}

} // verus!
