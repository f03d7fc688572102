//! The interpreter: fetch, decode, execute and the timer tick.

pub mod laws;
pub mod random;
mod sprite;
pub mod state;

pub use self::state::{Chip8Error, MachineState};

use vstd::prelude::*;
use rand::rngs::ThreadRng;
use self::laws::lemma_step_keeps_wf;
use self::random::{random_byte, thread_rng};
use self::sprite::{
    lemma_paint_done, lemma_paint_pixel, lemma_paint_row_end, lemma_paint_start, partly_collides,
    partly_drawn,
};
use self::state::{
    address_operand, agrees, blank_display, byte_operand, initial_state, lemma_nibbles_bounded,
    nibbles, step, write_bytes,
    DISPLAY_HEIGHT, DISPLAY_WIDTH, FLAG_REGISTER, KEY_COUNT, MEMORY_SIZE, PROGRAM_START,
    REGISTER_COUNT, STACK_LIMIT,
};

verus! {

/// A CHIP-8 machine.
pub struct Chip8 {
    memory: [u8; MEMORY_SIZE],
    freq: u32,
    pc: u16,
    i: u16,
    stack: Vec<u16>,
    vars: [u8; REGISTER_COUNT],
    display: [[bool; DISPLAY_WIDTH]; DISPLAY_HEIGHT],
    delay_timer: u8,
    sound_timer: u8,
    key_states: [bool; KEY_COUNT],
    rng: ThreadRng,
}

/// The rows of a pixel grid, top row first.
pub open spec fn display_rows(grid: [[bool; DISPLAY_WIDTH]; DISPLAY_HEIGHT]) -> Seq<Seq<bool>> {
    Seq::new(DISPLAY_HEIGHT as nat, |r: int| grid@[r]@)
}

impl View for Chip8 {
    type V = MachineState;

    closed spec fn view(&self) -> MachineState {
        MachineState {
            memory: self.memory@,
            freq: self.freq,
            pc: self.pc,
            i: self.i,
            stack: self.stack@,
            regs: self.vars@,
            display: display_rows(self.display),
            delay_timer: self.delay_timer,
            sound_timer: self.sound_timer,
            keys: self.key_states@,
        }
    }
}

impl Chip8 {
    /// A machine with empty memory and a blank display, ready to run at
    /// `PROGRAM_START`.
    pub fn new() -> (m: Self)
        ensures
            m@ == initial_state(),
            m@.wf(),
    {
        let m = Self {
            memory: [0u8; MEMORY_SIZE],
            freq: 700,
            pc: PROGRAM_START,
            i: 0x0050,
            stack: Vec::new(),
            vars: [0u8; REGISTER_COUNT],
            display: [[false; DISPLAY_WIDTH]; DISPLAY_HEIGHT],
            delay_timer: 60,
            sound_timer: 60,
            key_states: [false; KEY_COUNT],
            rng: thread_rng(),
        };
        assert(m@ =~~= initial_state());
        m
    }

    /// Every machine has the sizes that the model asks for.
    pub proof fn lemma_shape(&self)
        ensures
            self@.shaped(),
    {
    }

    // Writes the first `limit` bytes of `bytes`, or all of them if they are
    // fewer, to memory from address `at` on.
    fn write_memory(&mut self, at: usize, bytes: &Vec<u8>, limit: usize)
        requires
            at + limit <= MEMORY_SIZE,
        ensures
            final(self)@ == (MachineState {
                memory: write_bytes(old(self)@.memory, at as int, bytes@, limit as int),
                ..old(self)@
            }),
    {
        let count: usize = if bytes.len() < limit {
            bytes.len()
        } else {
            limit
        };
        let ghost before = self@;
        let mut k: usize = 0;
        assert(self@.memory =~= write_bytes(before.memory, at as int, bytes@, 0));
        while k < count
            invariant
                k <= count,
                count <= bytes.len(),
                count <= limit,
                at + limit <= MEMORY_SIZE,
                before.memory.len() == MEMORY_SIZE,
                self@ == (MachineState {
                    memory: write_bytes(before.memory, at as int, bytes@, k as int),
                    ..before
                }),
            decreases count - k,
        {
            self.memory[at + k] = bytes[k];
            k = k + 1;
            assert(self@.memory =~= write_bytes(before.memory, at as int, bytes@, k as int));
        }
        assert(write_bytes(before.memory, at as int, bytes@, count as int) =~= write_bytes(
            before.memory,
            at as int,
            bytes@,
            limit as int,
        ));
    }

    /// Loads a program at `PROGRAM_START`. What does not fit in memory is
    /// left out; nothing else in the machine changes.
    pub fn load_program(self, prog: Vec<u8>) -> (m: Self)
        ensures
            m@ == (MachineState {
                memory: write_bytes(
                    self@.memory,
                    PROGRAM_START as int,
                    prog@,
                    MEMORY_SIZE - PROGRAM_START,
                ),
                ..self@
            }),
            self@.wf() ==> m@.wf(),
    {
        let mut m = self;
        m.write_memory(PROGRAM_START as usize, &prog, MEMORY_SIZE - PROGRAM_START as usize);
        m
    }

    /// Loads a font at `addr`. The font lives below `PROGRAM_START`: what
    /// would reach that address is left out, and so is all of it if `addr`
    /// lies above. Nothing else in the machine changes.
    pub fn load_font(self, font: Vec<u8>, addr: u16) -> (m: Self)
        ensures
            m@ == (MachineState {
                memory: write_bytes(
                    self@.memory,
                    addr as int,
                    font@,
                    if addr <= PROGRAM_START {
                        PROGRAM_START - addr
                    } else {
                        0
                    },
                ),
                ..self@
            }),
            self@.wf() ==> m@.wf(),
    {
        let mut m = self;
        if addr <= PROGRAM_START {
            m.write_memory(addr as usize, &font, (PROGRAM_START - addr) as usize);
        } else {
            assert(m@.memory =~= write_bytes(m@.memory, addr as int, font@, 0));
        }
        m
    }

    /// Sets the number of instructions to run per second.
    pub fn set_freq(self, freq: u32) -> (m: Self)
        ensures
            m@ == (MachineState { freq, ..self@ }),
            self@.wf() ==> m@.wf(),
    {
        let mut m = self;
        m.freq = freq;
        m
    }

    /// The number of instructions to run per second.
    pub fn get_freq(&self) -> (f: u32)
        ensures
            f == self@.freq,
    {
        self.freq
    }

    /// The sound timer.
    pub fn get_sound_timer(&self) -> (t: u8)
        ensures
            t == self@.sound_timer,
    {
        self.sound_timer
    }

    /// The delay timer.
    pub fn get_delay_timer(&self) -> (t: u8)
        ensures
            t == self@.delay_timer,
    {
        self.delay_timer
    }

    /// The program counter.
    pub fn get_pc(&self) -> (pc: u16)
        ensures
            pc == self@.pc,
    {
        self.pc
    }

    /// The index register.
    pub fn get_i(&self) -> (i: u16)
        ensures
            i == self@.i,
    {
        self.i
    }

    /// The number of return addresses on the call stack.
    pub fn stack_depth(&self) -> (d: usize)
        ensures
            d == self@.stack.len(),
    {
        self.stack.len()
    }

    /// Presses or releases key `key`. There are `KEY_COUNT` keys: any other
    /// index is refused and nothing changes.
    pub fn update_key(&mut self, key: u8, val: bool) -> (res: Result<(), ()>)
        ensures
            key < KEY_COUNT ==> res is Ok && final(self)@ == old(self)@.with_key(key, val),
            key >= KEY_COUNT ==> res is Err && final(self)@ == old(self)@,
            old(self)@.wf() ==> final(self)@.wf(),
    {
        if (key as usize) < KEY_COUNT {
            self.key_states[key as usize] = val;
            Ok(())
        } else {
            Err(())
        }
    }

    /// Whether key `key` is pressed, if there is such a key.
    pub fn read_key(&self, key: u8) -> (res: Result<bool, ()>)
        ensures
            key < KEY_COUNT ==> res == Ok::<bool, ()>(self@.keys[key as int]),
            key >= KEY_COUNT ==> res is Err,
    {
        if (key as usize) < KEY_COUNT {
            Ok(self.key_states[key as usize])
        } else {
            Err(())
        }
    }

    /// The byte at address `I + offset`, if that address is in memory.
    pub fn read_at_i(&self, offset: u8) -> (b: Option<u8>)
        ensures
            self@.i + offset < MEMORY_SIZE ==> b == Some(self@.memory[self@.i + offset]),
            self@.i + offset >= MEMORY_SIZE ==> b.is_none(),
    {
        let at: usize = self.i as usize + offset as usize;
        if at < MEMORY_SIZE {
            Some(self.memory[at])
        } else {
            None
        }
    }

    /// Reads the instruction word at the program counter, high byte first,
    /// and moves the program counter past it. If one of the two bytes lies
    /// outside memory, nothing changes and the error says so.
    pub fn fetch(&mut self) -> (res: Result<u16, Chip8Error>)
        ensures
            old(self)@.can_fetch() ==> res == Ok::<u16, Chip8Error>(old(self)@.word_at_pc())
                && final(self)@ == old(self)@.fetched(),
            !old(self)@.can_fetch() ==> res == Err::<u16, Chip8Error>(Chip8Error::OutOfBoundsFetch)
                && final(self)@ == old(self)@,
            old(self)@.wf() ==> final(self)@.wf(),
    {
        let at: usize = self.pc as usize;
        if at + 1 < MEMORY_SIZE {
            let b1: u8 = self.memory[at];
            let b2: u8 = self.memory[at + 1];
            self.pc = self.pc + 2;
            Ok(((b1 as u16) << 8) | b2 as u16)
        } else {
            Err(Chip8Error::OutOfBoundsFetch)
        }
    }

    /// One tick of the sixty-hertz clock: each timer that is not at zero
    /// goes down by one.
    pub fn decr_timers(&mut self)
        ensures
            final(self)@ == old(self)@.tick(),
            old(self)@.wf() ==> final(self)@.wf(),
    {
        if self.delay_timer > 0 {
            self.delay_timer = self.delay_timer - 1;
        }
        if self.sound_timer > 0 {
            self.sound_timer = self.sound_timer - 1;
        }
    }

    /// A copy of the display: thirty-two rows of sixty-four pixels.
    pub fn get_display(&self) -> (grid: [[bool; DISPLAY_WIDTH]; DISPLAY_HEIGHT])
        ensures
            display_rows(grid) == self@.display,
    {
        self.display
    }

    /// The value of register `reg`, if there is such a register.
    pub fn get_reg(&self, reg: u8) -> (v: Option<u8>)
        ensures
            reg < REGISTER_COUNT ==> v == Some(self@.reg(reg)),
            reg >= REGISTER_COUNT ==> v.is_none(),
    {
        if (reg as usize) < REGISTER_COUNT {
            Some(self.vars[reg as usize])
        } else {
            None
        }
    }

    /// The four nibbles of an instruction word, most significant first.
    pub fn decode_to_nibbles(instr: u16) -> (n: (u8, u8, u8, u8))
        ensures
            n == nibbles(instr),
            n.0 < 16 && n.1 < 16 && n.2 < 16 && n.3 < 16,
    {
        proof {
            lemma_nibbles_bounded(instr);
        }
        (
            ((instr >> 12) & 0xF) as u8,
            ((instr >> 8) & 0xF) as u8,
            ((instr >> 4) & 0xF) as u8,
            (instr & 0xF) as u8,
        )
    }

    /// The low byte of an instruction word: its immediate operand.
    pub fn decode_byte_operand(instr: u16) -> (nn: u8)
        ensures
            nn == byte_operand(instr),
    {
        proof {
            lemma_nibbles_bounded(instr);
        }
        (instr & 0xFF) as u8
    }

    /// The low twelve bits of an instruction word: its address operand.
    pub fn decode_address_operand(instr: u16) -> (nnn: u16)
        ensures
            nnn == address_operand(instr),
            nnn <= 0xFFF,
    {
        proof {
            lemma_nibbles_bounded(instr);
        }
        instr & 0xFFF
    }

    /// Puts the low twelve bits of `val` in the index register.
    pub fn set_i(&mut self, val: u16)
        ensures
            final(self)@ == old(self)@.with_i((val % 0x1000) as u16),
            old(self)@.wf() ==> final(self)@.wf(),
    {
        assert(val & 0xFFF == val % 0x1000) by (bit_vector);
        self.i = val & 0xFFF;
    }

    /// Pushes the low twelve bits of `val` onto the call stack. With
    /// `STACK_LIMIT` addresses on the stack the push is refused and nothing
    /// changes.
    pub fn push_stack(&mut self, val: u16) -> (res: Result<(), Chip8Error>)
        ensures
            agrees(old(self)@.pushed(val), old(self)@, final(self)@, res),
            old(self)@.wf() ==> final(self)@.wf(),
    {
        if self.stack.len() >= STACK_LIMIT {
            return Err(Chip8Error::StackOverflow);
        }
        assert(val & 0xFFF == val % 0x1000) by (bit_vector);
        self.stack.push(val & 0xFFF);
        Ok(())
    }

    /// Takes the top address off the call stack. With an empty stack there
    /// is nothing to take, and nothing changes.
    pub fn pop_stack(&mut self) -> (res: Result<u16, Chip8Error>)
        ensures
            old(self)@.stack.len() == 0 ==> res == Err::<u16, Chip8Error>(Chip8Error::StackUnderflow)
                && final(self)@ == old(self)@,
            old(self)@.stack.len() > 0 ==> res == Ok::<u16, Chip8Error>(old(self)@.stack.last())
                && final(self)@ == (MachineState { stack: old(self)@.stack.drop_last(), ..old(self)@ }),
            old(self)@.wf() ==> final(self)@.wf(),
    {
        match self.stack.pop() {
            Some(v) => Ok(v),
            None => Err(Chip8Error::StackUnderflow),
        }
    }

    /// Turns every pixel off.
    pub fn clear_screen(&mut self)
        ensures
            final(self)@ == (MachineState { display: blank_display(), ..old(self)@ }),
            old(self)@.wf() ==> final(self)@.wf(),
    {
        self.display = [[false; DISPLAY_WIDTH]; DISPLAY_HEIGHT];
        assert(display_rows(self.display) =~~= blank_display());
    }

    /// Sets the program counter.
    pub fn jump_to(&mut self, addr: u16)
        ensures
            final(self)@ == old(self)@.with_pc(addr),
            old(self)@.wf() ==> final(self)@.wf(),
    {
        self.pc = addr;
    }

    /// Puts `val` in register `reg`. There are `REGISTER_COUNT` registers:
    /// any other index is refused and nothing changes.
    pub fn set_reg(&mut self, reg: u8, val: u8) -> (res: Result<(), Chip8Error>)
        ensures
            agrees(
                if reg < REGISTER_COUNT {
                    Ok(old(self)@.with_reg(reg, val))
                } else {
                    Err(Chip8Error::InvalidRegisterIndex)
                },
                old(self)@,
                final(self)@,
                res,
            ),
            old(self)@.wf() ==> final(self)@.wf(),
    {
        if (reg as usize) < REGISTER_COUNT {
            self.vars[reg as usize] = val;
            Ok(())
        } else {
            Err(Chip8Error::InvalidRegisterIndex)
        }
    }

    /// Puts `flag` in VF.
    pub fn set_flag(&mut self, flag: u8)
        ensures
            final(self)@ == old(self)@.with_flag(flag),
            old(self)@.wf() ==> final(self)@.wf(),
    {
        self.vars[FLAG_REGISTER as usize] = flag;
    }

    fn skip_next(&mut self, taken: bool) -> (res: Result<(), Chip8Error>)
        ensures
            agrees(old(self)@.skip_if(taken), old(self)@, final(self)@, res),
    {
        if !taken {
            Ok(())
        } else if self.pc > 0xFFFD {
            Err(Chip8Error::OutOfBoundsFetch)
        } else {
            self.pc = self.pc + 2;
            Ok(())
        }
    }

    fn wait_key(&mut self, reg: u8) -> (res: Result<(), Chip8Error>)
        requires
            reg < REGISTER_COUNT,
        ensures
            agrees(old(self)@.op_wait_key(reg), old(self)@, final(self)@, res),
    {
        let mut k: usize = 0;
        while k < KEY_COUNT
            invariant
                k <= KEY_COUNT,
                reg < REGISTER_COUNT,
                *self == *old(self),
                forall|j: int| 0 <= j < k ==> !(#[trigger] self@.keys[j]),
            decreases KEY_COUNT - k,
        {
            if self.key_states[k] {
                assert(self@.first_pressed(k as int));
                assert forall|j: int| self@.first_pressed(j) implies j == k by {
                    if j < k {
                        assert(!self@.keys[j]);
                    } else if j > k {
                        assert(self@.keys[k as int]);
                    }
                }
                self.vars[reg as usize] = k as u8;
                return Ok(());
            }
            k += 1;
        }
        assert forall|j: int| !self@.first_pressed(j) by {
            if 0 <= j < KEY_COUNT {
                assert(!self@.keys[j]);
            }
        }
        if self.pc < 2 {
            Err(Chip8Error::OutOfBoundsFetch)
        } else {
            self.pc = self.pc - 2;
            Ok(())
        }
    }

    /// Draws the sprite at `I` onto the display, at the column in register
    /// `reg_x` and the row in register `reg_y`, both wrapped into the
    /// display. The sprite has as many rows as the low nibble of `n` says;
    /// what would lie beyond the right or the lower edge is left out. A set
    /// bit flips its pixel, and VF tells whether a lit pixel went off. On an
    /// error nothing changes.
    pub fn display(&mut self, reg_x: u8, reg_y: u8, n: u8) -> (res: Result<(), Chip8Error>)
        ensures
            agrees(old(self)@.op_draw(reg_x, reg_y, n), old(self)@, final(self)@, res),
            old(self)@.wf() ==> final(self)@.wf(),
    {
        if reg_x as usize >= REGISTER_COUNT || reg_y as usize >= REGISTER_COUNT {
            return Err(Chip8Error::InvalidRegisterIndex);
        }
        let x0: usize = self.vars[reg_x as usize] as usize % DISPLAY_WIDTH;
        let y0: usize = self.vars[reg_y as usize] as usize % DISPLAY_HEIGHT;
        assert(n & 0xF == n % 16) by (bit_vector);
        let height: usize = (n & 0xF) as usize;
        let rows: usize = if height <= DISPLAY_HEIGHT - y0 {
            height
        } else {
            DISPLAY_HEIGHT - y0
        };
        if self.i as usize + rows > MEMORY_SIZE {
            return Err(Chip8Error::OutOfBoundsFetch);
        }
        let ghost before = self@;
        let mut collision = false;
        let mut row: usize = 0;
        proof {
            lemma_paint_start(before, x0 as int, y0 as int, rows as int);
            assert(self@ =~~= (MachineState {
                display: partly_drawn(before, x0 as int, y0 as int, rows as int, y0 as int, x0 as int),
                ..before
            }));
        }
        while row < rows
            invariant
                before.shaped(),
                x0 < DISPLAY_WIDTH,
                y0 < DISPLAY_HEIGHT,
                row <= rows,
                y0 + rows <= DISPLAY_HEIGHT,
                before.i + rows <= MEMORY_SIZE,
                self@ == (MachineState {
                    display: partly_drawn(
                        before,
                        x0 as int,
                        y0 as int,
                        rows as int,
                        y0 + row,
                        x0 as int,
                    ),
                    ..before
                }),
                collision == partly_collides(
                    before,
                    x0 as int,
                    y0 as int,
                    rows as int,
                    y0 + row,
                    x0 as int,
                ),
            decreases rows - row,
        {
            let sprite = self.memory[self.i as usize + row];
            let mut bit: u8 = 0;
            while bit < 8 && x0 + (bit as usize) < DISPLAY_WIDTH
                invariant
                    before.shaped(),
                    x0 < DISPLAY_WIDTH,
                    y0 < DISPLAY_HEIGHT,
                    row < rows,
                    y0 + rows <= DISPLAY_HEIGHT,
                    before.i + rows <= MEMORY_SIZE,
                    bit <= 8,
                    x0 + bit <= DISPLAY_WIDTH,
                    sprite == before.memory[before.i + row],
                    self@ == (MachineState {
                        display: partly_drawn(
                            before,
                            x0 as int,
                            y0 as int,
                            rows as int,
                            y0 + row,
                            x0 + bit,
                        ),
                        ..before
                    }),
                    collision == partly_collides(
                        before,
                        x0 as int,
                        y0 as int,
                        rows as int,
                        y0 + row,
                        x0 + bit,
                    ),
                decreases 8 - bit,
            {
                proof {
                    lemma_paint_pixel(before, x0 as int, y0 as int, rows as int, row as int, bit as int);
                }
                let ghost grid = self.display;
                if sprite & (0x80u8 >> bit) != 0 {
                    let lit = self.display[y0 + row][x0 + bit as usize];
                    self.display[y0 + row][x0 + bit as usize] = !lit;
                    if lit {
                        collision = true;
                    }
                }
                bit = bit + 1;
                proof {
                    let target = partly_drawn(
                        before,
                        x0 as int,
                        y0 as int,
                        rows as int,
                        y0 + row,
                        x0 + bit,
                    );
                    assert forall|r: int| 0 <= r < DISPLAY_HEIGHT implies #[trigger] display_rows(
                        self.display,
                    )[r] == target[r] by {
                        assert(display_rows(grid)[r] == grid@[r]@);
                        assert(display_rows(self.display)[r] =~= target[r]);
                    }
                    assert(display_rows(self.display) =~= target);
                }
            }
            proof {
                lemma_paint_row_end(before, x0 as int, y0 as int, rows as int, row as int, bit as int);
            }
            row = row + 1;
        }
        proof {
            lemma_paint_done(before, x0 as int, y0 as int, rows as int);
        }
        self.vars[FLAG_REGISTER as usize] = if collision {
            1
        } else {
            0
        };
        Ok(())
    }

    /// Executes the instruction word `instr`, with `random` as the byte that
    /// `RAND` draws. On an error the machine is left as it was.
    pub fn exec_with_random(&mut self, instr: u16, random: u8) -> (res: Result<(), Chip8Error>)
        ensures
            agrees(step(old(self)@, instr, random), old(self)@, final(self)@, res),
            old(self)@.wf() ==> final(self)@.wf(),
    {
        proof {
            if self@.wf() {
                lemma_step_keeps_wf(self@, instr, random);
            }
        }
        let n = Self::decode_to_nibbles(instr);
        let x = n.1;
        let y = n.2;
        let nn: u8 = Self::decode_byte_operand(instr);
        let nnn: u16 = Self::decode_address_operand(instr);
        let vx: u8 = self.vars[x as usize];
        let vy: u8 = self.vars[y as usize];
        match n {
            (0x0, 0x0, 0xE, 0x0) => {
                self.clear_screen();
                Ok(())
            },
            (0x0, 0x0, 0xE, 0xE) => {
                match self.pop_stack() {
                    Ok(addr) => {
                        self.jump_to(addr);
                        Ok(())
                    },
                    Err(e) => Err(e),
                }
            },
            (0x1, _, _, _) => {
                self.jump_to(nnn);
                Ok(())
            },
            (0x2, _, _, _) => {
                let pc = self.pc;
                match self.push_stack(pc) {
                    Ok(()) => {
                        self.jump_to(nnn);
                        Ok(())
                    },
                    Err(e) => Err(e),
                }
            },
            (0x3, _, _, _) => self.skip_next(vx == nn),
            (0x4, _, _, _) => self.skip_next(vx != nn),
            (0x5, _, _, 0x0) => self.skip_next(vx == vy),
            (0x6, _, _, _) => self.set_reg(x, nn),
            (0x7, _, _, _) => {
                let val: u16 = vx as u16 + nn as u16;
                assert(val & 0xFF == val % 0x100) by (bit_vector);
                self.set_reg(x, (val & 0xFF) as u8)
            },
            (0x8, _, _, 0x0) => self.set_reg(x, vy),
            (0x8, _, _, 0x1) => self.set_reg(x, vx | vy),
            (0x8, _, _, 0x2) => self.set_reg(x, vx & vy),
            (0x8, _, _, 0x3) => self.set_reg(x, vx ^ vy),
            (0x8, _, _, 0x4) => {
                let val: u16 = vx as u16 + vy as u16;
                assert(val & 0xFF == val % 0x100) by (bit_vector);
                self.set_flag(if val > 0xFF { 1 } else { 0 });
                self.set_reg(x, (val & 0xFF) as u8)
            },
            (0x8, _, _, 0x5) => {
                let diff: u8 = if vx < vy { vy - vx } else { vx - vy };
                let val: u8 = if vx < vy {
                    self.set_flag(0);
                    0xFF - diff
                } else {
                    self.set_flag(1);
                    vx - diff
                };
                self.set_reg(x, val)
            },
            (0x8, _, _, 0x6) => {
                assert(vx & 0x1 == vx % 2 && vy >> 1 == vy / 2) by (bit_vector);
                self.set_flag(vx & 0x1);
                self.set_reg(x, vy >> 1)
            },
            (0x8, _, _, 0x7) => {
                let diff: u8 = if vy < vx { vx - vy } else { vy - vx };
                let val: u8 = if vy < vx {
                    self.set_flag(0);
                    0xFF - diff
                } else {
                    self.set_flag(1);
                    vy - diff
                };
                self.set_reg(x, val)
            },
            (0x8, _, _, 0xE) => {
                let wide: u16 = (vy as u16) << 1;
                assert((vx >> 7) & 0x1 == vx / 0x80 && ((vy as u16) << 1) & 0xFF == (vy * 2) % 0x100)
                    by (bit_vector);
                self.set_flag((vx >> 7) & 0x1);
                self.set_reg(x, (wide & 0xFF) as u8)
            },
            (0x9, _, _, 0x0) => self.skip_next(vx != vy),
            (0xA, _, _, _) => {
                self.set_i(nnn);
                Ok(())
            },
            (0xB, _, _, _) => {
                let v0: u8 = self.vars[0];
                self.jump_to(nnn + v0 as u16);
                Ok(())
            },
            (0xC, _, _, _) => self.set_reg(x, random & nn),
            (0xD, _, _, _) => self.display(x, y, n.3),
            (0xE, _, 0x9, 0xE) => {
                if vx as usize >= KEY_COUNT {
                    Err(Chip8Error::InvalidKeyIndex)
                } else {
                    let pressed = self.key_states[vx as usize];
                    self.skip_next(pressed)
                }
            },
            (0xE, _, 0xA, 0x1) => {
                if vx as usize >= KEY_COUNT {
                    Err(Chip8Error::InvalidKeyIndex)
                } else {
                    let pressed = self.key_states[vx as usize];
                    self.skip_next(!pressed)
                }
            },
            (0xF, _, 0x0, 0x7) => {
                let t = self.delay_timer;
                self.set_reg(x, t)
            },
            (0xF, _, 0x0, 0xA) => self.wait_key(x),
            (0xF, _, 0x1, 0x5) => {
                self.delay_timer = vx;
                Ok(())
            },
            (0xF, _, 0x1, 0x8) => {
                self.sound_timer = vx;
                Ok(())
            },
            (0xF, _, 0x1, 0xE) => {
                let val: u32 = self.i as u32 + vx as u32;
                assert(val & 0xFFF == val % 0x1000) by (bit_vector);
                self.set_flag(if val > 0xFFF { 1 } else { 0 });
                assert(val & 0xFFF <= 0xFFF) by (bit_vector);
                self.set_i((val & 0xFFF) as u16);
                Ok(())
            },
            _ => Err(Chip8Error::UnimplementedOpcode),
        }
    }

    /// Executes the instruction word `instr`. `RAND` draws its byte from the
    /// machine's random source; every other instruction does exactly what
    /// `step` says. On an error the machine is left as it was.
    pub fn exec(&mut self, instr: u16) -> (res: Result<(), Chip8Error>)
        ensures
            exists|random: u8| agrees(step(old(self)@, instr, random), old(self)@, final(self)@, res),
            nibbles(instr).0 != 0xC ==> agrees(step(old(self)@, instr, 0), old(self)@, final(self)@, res),
            old(self)@.wf() ==> final(self)@.wf(),
    {
        let random: u8 = if (instr >> 12) == 0xC {
            random_byte(&mut self.rng)
        } else {
            0
        };
        proof {
            lemma_nibbles_bounded(instr);
        }
        self.exec_with_random(instr, random)
    }
}

} // verus!
