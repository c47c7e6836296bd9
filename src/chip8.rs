//! The machine: its state, its lifecycle and the instruction set.
//!
//! Addressing policy: memory addresses are 12 bits wide. The program
//! counter and every memory access through the index register wrap modulo
//! 4096; the index register itself is 16 bits and wraps modulo 65536. The
//! key-test instructions read the key number from the low nibble of Vx.
use vstd::prelude::*;

use crate::common::{Size, USize};
use crate::instruction::{decode, lemma_decode_in_range, Instruction};
use crate::model::{
    addr, alu_view, bcd_view, call_view, clear_view, collides, covers, draw_view, dump_view, fetch,
    first_pressed, font_glyphs, indexed_jump_view, initial_memory, initial_view, key_view,
    load_view, misc_view, pop_view, push_view, return_view, set_reg, skip_if, sprite_pixel,
    step_view, timer_view, toggle_view, valid, wait_key_view, MachineView,
};

verus! {

pub const MEMORY_SIZE: usize = 4096;
pub const REGISTERS_COUNT: usize = 16;
pub const STACK_SIZE: usize = 16;
pub const KEYS_COUNT: usize = 16;
pub const DISPLAY_WIDTH: usize = 64;
pub const DISPLAY_HEIGHT: usize = 32;
pub const DISPLAY_CELLS: usize = 2048;
pub const FONT_BASE_ADDRESS: usize = 0x050;
pub const PROGRAM_BASE_ADDRESS: usize = 0x200;
/// The largest program that fits between the program base and the end of memory.
pub const MAX_ROM_SIZE: usize = 0xe00;

/// Glyphs for the hexadecimal digits, five rows of four pixels each.
pub const FONT_SPRITES: [u8; 80] = [
    0xF0, 0x90, 0x90, 0x90, 0xF0, // 0
    0x20, 0x60, 0x20, 0x20, 0x70, // 1
    0xF0, 0x10, 0xF0, 0x80, 0xF0, // 2
    0xF0, 0x10, 0xF0, 0x10, 0xF0, // 3
    0x90, 0x90, 0xF0, 0x10, 0x10, // 4
    0xF0, 0x80, 0xF0, 0x10, 0xF0, // 5
    0xF0, 0x80, 0xF0, 0x90, 0xF0, // 6
    0xF0, 0x10, 0x20, 0x40, 0x40, // 7
    0xF0, 0x90, 0xF0, 0x90, 0xF0, // 8
    0xF0, 0x90, 0xF0, 0x10, 0xF0, // 9
    0xF0, 0x90, 0xF0, 0x90, 0x90, // A
    0xE0, 0x90, 0xE0, 0x90, 0xE0, // B
    0xF0, 0x80, 0x80, 0x80, 0xF0, // C
    0xE0, 0x90, 0x90, 0x90, 0xE0, // D
    0xF0, 0x80, 0xF0, 0x80, 0xF0, // E
    0xF0, 0x80, 0xF0, 0x80, 0x80, // F
];

/// The framebuffer's extent: 32 rows of 64 pixels.
pub fn display_size() -> (r: USize)
    ensures
        r == (Size { height: DISPLAY_HEIGHT, width: DISPLAY_WIDTH }),
{
    Size { height: DISPLAY_HEIGHT, width: DISPLAY_WIDTH }
}

/// What can go wrong when loading or running a program.
#[derive(Debug, Clone, Copy, PartialEq, Eq, Structural)]
pub enum Error {
    /// The program of this many bytes does not fit in memory.
    RomTooBig(usize),
    /// The opcode has no handler; the program counter is already past it.
    UnknownInstruction(Instruction),
    /// A call found all sixteen return slots taken.
    StackOverflow,
    /// A return found no return address.
    EmptyStack,
}

/// The execution state of a machine.
#[derive(Debug, Clone, Copy, PartialEq, Eq, Structural)]
pub enum State {
    Running,
    Paused,
    Terminated,
}

/// Toggles between historically divergent instruction behaviours.
#[derive(Debug, Clone, Copy, PartialEq, Eq, Structural)]
pub struct Quirks {
    /// Clear VF after OR, AND and XOR.
    pub vf_reset: bool,
    /// Advance the index register past the registers stored or loaded.
    pub memory: bool,
    /// Shift Vx itself; otherwise Vx takes Vy before the shift.
    pub shifting: bool,
    /// The indexed jump adds the register named by the address's top nibble;
    /// otherwise it adds V0.
    pub jumping: bool,
}

impl Default for Quirks {
    fn default() -> (r: Self)
        ensures
            r == (Quirks { vf_reset: true, memory: false, shifting: true, jumping: false }),
    {
        Self { vf_reset: true, memory: false, shifting: true, jumping: false }
    }
}

/// A CHIP-8 machine: memory, registers, timers, call stack, framebuffer
/// and keypad, together with the program it was built from. Its abstract
/// state is `MachineView`; every operation states its effect on it.
pub struct Chip8 {
    reg: [u8; REGISTERS_COUNT],
    ri: u16,
    dt: u8,
    st: u8,
    sp: usize,
    pc: usize,
    memory: [u8; MEMORY_SIZE],
    stack: [u16; STACK_SIZE],
    video_memory: Vec<u8>,
    keypad: [bool; KEYS_COUNT],
    state: State,
    rom: Vec<u8>,
    quirks: Quirks,
}

impl View for Chip8 {
    type V = MachineView;

    closed spec fn view(&self) -> MachineView {
        MachineView {
            memory: self.memory@,
            reg: self.reg@,
            ri: self.ri,
            dt: self.dt,
            st: self.st,
            stack: self.stack@.subrange(0, self.sp as int),
            pc: self.pc as int,
            video: self.video_memory@,
            keypad: self.keypad@,
            state: self.state,
            rom: self.rom@,
            quirks: self.quirks,
        }
    }
}

/// The cells of a sprite of `n` rows at (`row0`, `col0`) that a draw has
/// reached after `i` whole rows and `j` pixels of the next.
/// Relies on rand::random (rand 0.8), which draws from the thread-local
/// generator: any of the 256 byte values may come back.
#[verifier::external_body]
fn random_byte() -> (r: u8) {
    rand::random::<u8>()
}

spec fn drawn(row0: int, col0: int, n: int, i: int, j: int, k: int) -> bool {
    &&& covers(row0, col0, n, k)
    &&& (k / 64 - row0 < i || (k / 64 - row0 == i && k % 64 - col0 < j))
}

proof fn lemma_cell_bits(prev: u8, pixel: u8)
    by (bit_vector)
    requires
        prev <= 1,
        pixel <= 1,
    ensures
        (prev & pixel > 0) == (prev == 1 && pixel == 1),
        prev ^ pixel <= 1,
{
}

proof fn lemma_addr_offset(k: int, base: int, o: int)
    requires
        0 <= k < 4096,
        0 <= o < 4096,
        0 <= base,
    ensures
        (addr(k - base) == o) == (k == addr(base + o)),
{
}

impl Chip8 {
    /// The machine's fields agree with a valid abstract state.
    pub closed spec fn wf(&self) -> bool {
        &&& self.sp <= STACK_SIZE
        &&& valid(self@)
    }

    /// Builds a machine holding `rom` at the program base, in the Running state.
    pub fn with_rom(rom: Vec<u8>, quirks: Quirks) -> (r: Result<Self, Error>)
        ensures
            r is Ok <==> rom@.len() <= MAX_ROM_SIZE,
            r is Err ==> r == Err::<Self, Error>(Error::RomTooBig(rom@.len() as usize)),
            r matches Ok(m) ==> m.wf() && m@ == initial_view(rom@, quirks),
            r matches Ok(m) ==> forall|i: int|
                0 <= i < rom@.len() ==> m@.memory[PROGRAM_BASE_ADDRESS + i] == rom@[i],
    {
        if rom.len() > MEMORY_SIZE - PROGRAM_BASE_ADDRESS {
            return Err(Error::RomTooBig(rom.len()));
        }
        let mut machine = Self {
            reg: [0u8; REGISTERS_COUNT],
            ri: 0,
            dt: 0,
            st: 0,
            sp: 0,
            pc: PROGRAM_BASE_ADDRESS,
            memory: [0u8; MEMORY_SIZE],
            stack: [0u16; STACK_SIZE],
            video_memory: vec![0u8; DISPLAY_CELLS],
            keypad: [false; KEYS_COUNT],
            state: State::Paused,
            rom,
            quirks,
        };
        machine.reset();
        Ok(machine)
    }

    /// Memory as a fresh machine holds it: font, program, zeros.
    fn load_memory(rom: &Vec<u8>) -> (r: [u8; MEMORY_SIZE])
        requires
            rom@.len() <= MAX_ROM_SIZE,
        ensures
            r@ == initial_memory(rom@),
    {
        let mut memory = [0u8; MEMORY_SIZE];
        let mut i: usize = 0;
        while i < rom.len()
            invariant
                i <= rom@.len() <= MAX_ROM_SIZE,
                forall|k: int|
                    0 <= k < MEMORY_SIZE ==> #[trigger] memory@[k] == if PROGRAM_BASE_ADDRESS <= k
                        < PROGRAM_BASE_ADDRESS + i {
                        rom@[k - PROGRAM_BASE_ADDRESS]
                    } else {
                        0u8
                    },
            decreases rom@.len() - i,
        {
            memory[PROGRAM_BASE_ADDRESS + i] = rom[i];
            i += 1;
        }
        let mut j: usize = 0;
        while j < FONT_SPRITES.len()
            invariant
                rom@.len() <= MAX_ROM_SIZE,
                j <= 80,
                forall|k: int|
                    0 <= k < MEMORY_SIZE ==> #[trigger] memory@[k] == if FONT_BASE_ADDRESS <= k
                        < FONT_BASE_ADDRESS + j {
                        font_glyphs()[k - FONT_BASE_ADDRESS]
                    } else if PROGRAM_BASE_ADDRESS <= k < PROGRAM_BASE_ADDRESS + rom@.len() {
                        rom@[k - PROGRAM_BASE_ADDRESS]
                    } else {
                        0u8
                    },
            decreases 80 - j,
        {
            memory[FONT_BASE_ADDRESS + j] = FONT_SPRITES[j];
            j += 1;
        }
        assert(memory@ =~= initial_memory(rom@));
        memory
    }

    /// Reloads the program and font and clears everything else; the machine
    /// is Running afterwards.
    pub fn reset(&mut self)
        requires
            old(self).wf(),
        ensures
            final(self).wf(),
            final(self)@ == initial_view(old(self)@.rom, old(self)@.quirks),
    {
        self.memory = Self::load_memory(&self.rom);
        self.reg = [0u8; REGISTERS_COUNT];
        self.ri = 0;
        self.dt = 0;
        self.st = 0;
        self.sp = 0;
        self.pc = PROGRAM_BASE_ADDRESS;
        self.video_memory = vec![0u8; DISPLAY_CELLS];
        self.keypad = [false; KEYS_COUNT];
        self.state = State::Running;
        assert(self@.reg =~= initial_view(self@.rom, self@.quirks).reg);
        assert(self@.stack =~= initial_view(self@.rom, self@.quirks).stack);
        assert(self@.video =~= initial_view(self@.rom, self@.quirks).video);
        assert(self@.keypad =~= initial_view(self@.rom, self@.quirks).keypad);
    }

    /// Saves a return address.
    pub fn push(&mut self, value: u16) -> (r: Result<(), Error>)
        requires
            old(self).wf(),
        ensures
            final(self).wf(),
            (final(self)@, r) == push_view(old(self)@, value),
    {
        if self.sp == STACK_SIZE {
            return Err(Error::StackOverflow);
        }
        self.stack[self.sp] = value;
        self.sp += 1;
        assert(self@.stack =~= old(self)@.stack.push(value));
        Ok(())
    }

    /// Takes back the most recent return address.
    pub fn pop(&mut self) -> (r: Result<u16, Error>)
        requires
            old(self).wf(),
        ensures
            final(self).wf(),
            (final(self)@, r) == pop_view(old(self)@),
    {
        if self.sp == 0 {
            return Err(Error::EmptyStack);
        }
        self.sp -= 1;
        assert(self@.stack =~= old(self)@.stack.drop_last());
        Ok(self.stack[self.sp])
    }

    /// Executes the instruction at the program counter if the machine is
    /// Running; the random instruction draws a fresh byte.
    pub fn teak(&mut self) -> (r: Result<(), Error>)
        requires
            old(self).wf(),
        ensures
            final(self).wf(),
            exists|random: u8| (final(self)@, r) == step_view(old(self)@, random),
    {
        let random = random_byte();
        self.teak_with_random(random)
    }

    /// Executes the instruction at the program counter if the machine is
    /// Running, taking `random` as the byte the random instruction draws.
    pub fn teak_with_random(&mut self, random: u8) -> (r: Result<(), Error>)
        requires
            old(self).wf(),
        ensures
            final(self).wf(),
            (final(self)@, r) == step_view(old(self)@, random),
    {
        match self.state {
            State::Running => {},
            _ => return Ok(()),
        }
        let instr = Instruction::with_bytes(
            self.memory[self.pc],
            self.memory[(self.pc + 1) % MEMORY_SIZE],
        );
        self.pc = (self.pc + 2) % MEMORY_SIZE;
        proof {
            lemma_decode_in_range(fetch(old(self)@));
        }
        let nnn = instr.nnn;
        let nn = instr.nn;
        let n = instr.n;
        let x = instr.x;
        let y = instr.y;
        match instr.header {
            0x0 => match nnn {
                0xe0 => self.op_clear_screen(),
                0xee => self.op_return()?,
                _ => {
                    // machine code routines are not run
                },
            },
            0x1 => self.op_jmp(nnn),
            0x2 => self.op_call(nnn)?,
            0x3 => self.op_skip_eq(x, nn),
            0x4 => self.op_skip_ne(x, nn),
            0x5 => self.op_skip_reg_eq(x, y),
            0x6 => self.op_mov(x, nn),
            0x7 => self.op_add(x, nn),
            0x8 => match n {
                0x0 => self.op_reg_mov(x, y),
                0x1 => self.op_or(x, y),
                0x2 => self.op_and(x, y),
                0x3 => self.op_xor(x, y),
                0x4 => self.op_reg_add(x, y),
                0x5 => self.op_reg_sub(x, y),
                0x6 => self.op_shr(x, y),
                0x7 => self.op_reg_sub_rev(x, y),
                0xe => self.op_shl(x, y),
                _ => {
                    return Err(Error::UnknownInstruction(instr));
                },
            },
            0x9 => self.op_skip_reg_ne(x, y),
            0xa => self.op_mov_ptr(nnn),
            0xb => self.op_reg_jmp(nnn),
            0xc => self.op_rand(x, nn, random),
            0xd => self.op_display(x, y, n),
            0xe => match nn {
                0x9e => self.op_skip_key_eq(x),
                0xa1 => self.op_skip_key_ne(x),
                _ => {
                    return Err(Error::UnknownInstruction(instr));
                },
            },
            0xf => match nn {
                0x07 => self.op_dump_delay(x),
                0x0a => self.op_wait_key(x),
                0x15 => self.op_set_delay(x),
                0x18 => self.op_set_sound(x),
                0x1e => self.op_ptr_add(x),
                0x29 => self.op_mov_font_addr(x),
                0x33 => self.op_bdc(x),
                0x55 => self.op_reg_dump(x),
                0x65 => self.op_reg_load(x),
                _ => {
                    return Err(Error::UnknownInstruction(instr));
                },
            },
            _ => {
                return Err(Error::UnknownInstruction(instr));
            },
        }
        Ok(())
    }

    fn op_clear_screen(&mut self)
        requires
            old(self).wf(),
        ensures
            final(self).wf(),
            final(self)@ == clear_view(old(self)@),
    {
        self.video_memory = vec![0u8; DISPLAY_CELLS];
        assert(self@.video =~= clear_view(old(self)@).video);
    }

    fn op_return(&mut self) -> (r: Result<(), Error>)
        requires
            old(self).wf(),
        ensures
            final(self).wf(),
            (final(self)@, r) == return_view(old(self)@),
    {
        let address = self.pop()?;
        self.pc = address as usize % MEMORY_SIZE;
        Ok(())
    }

    fn op_jmp(&mut self, address: u16)
        requires
            old(self).wf(),
            address < MEMORY_SIZE,
        ensures
            final(self).wf(),
            final(self)@ == (MachineView { pc: address as int, ..old(self)@ }),
    {
        self.pc = address as usize;
    }

    fn op_call(&mut self, address: u16) -> (r: Result<(), Error>)
        requires
            old(self).wf(),
            address < MEMORY_SIZE,
        ensures
            final(self).wf(),
            (final(self)@, r) == call_view(old(self)@, address),
    {
        let ret_address = self.pc;
        self.push(ret_address as u16)?;
        self.pc = address as usize;
        Ok(())
    }

    fn op_skip_eq(&mut self, x: usize, value: u8)
        requires
            old(self).wf(),
            x < REGISTERS_COUNT,
        ensures
            final(self).wf(),
            final(self)@ == skip_if(old(self)@, old(self)@.reg[x as int] == value),
    {
        if self.reg[x] == value {
            self.pc = (self.pc + 2) % MEMORY_SIZE;
        }
    }

    fn op_skip_ne(&mut self, x: usize, value: u8)
        requires
            old(self).wf(),
            x < REGISTERS_COUNT,
        ensures
            final(self).wf(),
            final(self)@ == skip_if(old(self)@, old(self)@.reg[x as int] != value),
    {
        if self.reg[x] != value {
            self.pc = (self.pc + 2) % MEMORY_SIZE;
        }
    }

    fn op_skip_reg_eq(&mut self, x: usize, y: usize)
        requires
            old(self).wf(),
            x < REGISTERS_COUNT,
            y < REGISTERS_COUNT,
        ensures
            final(self).wf(),
            final(self)@ == skip_if(
                old(self)@,
                old(self)@.reg[x as int] == old(self)@.reg[y as int],
            ),
    {
        if self.reg[x] == self.reg[y] {
            self.pc = (self.pc + 2) % MEMORY_SIZE;
        }
    }

    fn op_mov(&mut self, x: usize, value: u8)
        requires
            old(self).wf(),
            x < REGISTERS_COUNT,
        ensures
            final(self).wf(),
            final(self)@ == set_reg(old(self)@, x as int, value),
    {
        self.reg[x] = value;
    }

    fn op_add(&mut self, x: usize, value: u8)
        requires
            old(self).wf(),
            x < REGISTERS_COUNT,
        ensures
            final(self).wf(),
            final(self)@ == set_reg(
                old(self)@,
                x as int,
                ((old(self)@.reg[x as int] + value) % 256) as u8,
            ),
    {
        let sum = value as u16 + self.reg[x] as u16;
        self.reg[x] = (sum % 256) as u8;
    }

    fn op_reg_mov(&mut self, x: usize, y: usize)
        requires
            old(self).wf(),
            x < REGISTERS_COUNT,
            y < REGISTERS_COUNT,
        ensures
            final(self).wf(),
            final(self)@ == alu_view(old(self)@, x as int, y as int, 0),
    {
        self.reg[x] = self.reg[y];
    }

    fn op_or(&mut self, x: usize, y: usize)
        requires
            old(self).wf(),
            x < REGISTERS_COUNT,
            y < REGISTERS_COUNT,
        ensures
            final(self).wf(),
            final(self)@ == alu_view(old(self)@, x as int, y as int, 1),
    {
        self.reg[x] = self.reg[x] | self.reg[y];
        if self.quirks.vf_reset {
            self.reg[0xf] = 0;
        }
    }

    fn op_and(&mut self, x: usize, y: usize)
        requires
            old(self).wf(),
            x < REGISTERS_COUNT,
            y < REGISTERS_COUNT,
        ensures
            final(self).wf(),
            final(self)@ == alu_view(old(self)@, x as int, y as int, 2),
    {
        self.reg[x] = self.reg[x] & self.reg[y];
        if self.quirks.vf_reset {
            self.reg[0xf] = 0;
        }
    }

    fn op_xor(&mut self, x: usize, y: usize)
        requires
            old(self).wf(),
            x < REGISTERS_COUNT,
            y < REGISTERS_COUNT,
        ensures
            final(self).wf(),
            final(self)@ == alu_view(old(self)@, x as int, y as int, 3),
    {
        self.reg[x] = self.reg[x] ^ self.reg[y];
        if self.quirks.vf_reset {
            self.reg[0xf] = 0;
        }
    }

    fn op_reg_add(&mut self, x: usize, y: usize)
        requires
            old(self).wf(),
            x < REGISTERS_COUNT,
            y < REGISTERS_COUNT,
        ensures
            final(self).wf(),
            final(self)@ == alu_view(old(self)@, x as int, y as int, 4),
    {
        let a = self.reg[x] as u16;
        let b = self.reg[y] as u16;
        let sum = a + b;
        let vf: u8 = if sum > 0xff { 1 } else { 0 };
        self.reg[x] = (sum % 256) as u8;
        self.reg[0xf] = vf;
    }

    fn op_reg_sub(&mut self, x: usize, y: usize)
        requires
            old(self).wf(),
            x < REGISTERS_COUNT,
            y < REGISTERS_COUNT,
        ensures
            final(self).wf(),
            final(self)@ == alu_view(old(self)@, x as int, y as int, 5),
    {
        let a = self.reg[x];
        let b = self.reg[y];
        let vf: u8 = if b <= a { 1 } else { 0 };
        self.reg[x] = a.wrapping_sub(b);
        self.reg[0xf] = vf;
    }

    fn op_shr(&mut self, x: usize, y: usize)
        requires
            old(self).wf(),
            x < REGISTERS_COUNT,
            y < REGISTERS_COUNT,
        ensures
            final(self).wf(),
            final(self)@ == alu_view(old(self)@, x as int, y as int, 6),
    {
        if !self.quirks.shifting {
            self.reg[x] = self.reg[y];
        }
        let v = self.reg[x];
        let vf = v & 1;
        assert(v & 1 == v % 2) by (bit_vector);
        assert(v >> 1 == v / 2) by (bit_vector);
        self.reg[x] = v >> 1;
        self.reg[0xf] = vf;
        assert(self@.reg =~= alu_view(old(self)@, x as int, y as int, 6).reg);
    }

    fn op_reg_sub_rev(&mut self, x: usize, y: usize)
        requires
            old(self).wf(),
            x < REGISTERS_COUNT,
            y < REGISTERS_COUNT,
        ensures
            final(self).wf(),
            final(self)@ == alu_view(old(self)@, x as int, y as int, 7),
    {
        let a = self.reg[x];
        let b = self.reg[y];
        let vf: u8 = if a <= b { 1 } else { 0 };
        self.reg[x] = b.wrapping_sub(a);
        self.reg[0xf] = vf;
    }

    fn op_shl(&mut self, x: usize, y: usize)
        requires
            old(self).wf(),
            x < REGISTERS_COUNT,
            y < REGISTERS_COUNT,
        ensures
            final(self).wf(),
            final(self)@ == alu_view(old(self)@, x as int, y as int, 0xe),
    {
        if !self.quirks.shifting {
            self.reg[x] = self.reg[y];
        }
        let v = self.reg[x];
        let vf = v >> 7;
        assert(v >> 7 == v / 128) by (bit_vector);
        assert(v << 1 == (v * 2) % 256) by (bit_vector);
        self.reg[x] = v << 1;
        self.reg[0xf] = vf;
        assert(self@.reg =~= alu_view(old(self)@, x as int, y as int, 0xe).reg);
    }

    fn op_skip_reg_ne(&mut self, x: usize, y: usize)
        requires
            old(self).wf(),
            x < REGISTERS_COUNT,
            y < REGISTERS_COUNT,
        ensures
            final(self).wf(),
            final(self)@ == skip_if(
                old(self)@,
                old(self)@.reg[x as int] != old(self)@.reg[y as int],
            ),
    {
        if self.reg[x] != self.reg[y] {
            self.pc = (self.pc + 2) % MEMORY_SIZE;
        }
    }

    fn op_mov_ptr(&mut self, address: u16)
        requires
            old(self).wf(),
        ensures
            final(self).wf(),
            final(self)@ == (MachineView { ri: address, ..old(self)@ }),
    {
        self.ri = address;
    }

    fn op_reg_jmp(&mut self, address: u16)
        requires
            old(self).wf(),
        ensures
            final(self).wf(),
            final(self)@ == indexed_jump_view(old(self)@, address),
    {
        assert((address >> 8) & 0xf == (address / 256) % 16) by (bit_vector);
        let base = if self.quirks.jumping {
            self.reg[((address >> 8) & 0xf) as usize]
        } else {
            self.reg[0]
        };
        self.pc = (base as usize + address as usize) % MEMORY_SIZE;
    }

    fn op_rand(&mut self, x: usize, value: u8, random: u8)
        requires
            old(self).wf(),
            x < REGISTERS_COUNT,
        ensures
            final(self).wf(),
            final(self)@ == set_reg(old(self)@, x as int, value & random),
    {
        self.reg[x] = value & random;
    }

    fn op_display(&mut self, x: usize, y: usize, height: u8)
        requires
            old(self).wf(),
            x < REGISTERS_COUNT,
            y < REGISTERS_COUNT,
            height < 16,
        ensures
            final(self).wf(),
            final(self)@ == draw_view(old(self)@, x as int, y as int, height),
    {
        let ghost m = old(self)@;
        let row = (self.reg[y] % 32) as usize;
        let col = (self.reg[x] % 64) as usize;
        let ghost row0 = row as int;
        let ghost col0 = col as int;
        let ghost n = height as int;
        let ptr = self.ri as usize;
        let rows: usize = if row + height as usize > DISPLAY_HEIGHT {
            DISPLAY_HEIGHT - row
        } else {
            height as usize
        };
        let cols: usize = if col + 8 > DISPLAY_WIDTH {
            DISPLAY_WIDTH - col
        } else {
            8
        };
        let mut hit = false;
        let mut i: usize = 0;
        while i < rows
            invariant
                valid(m),
                self.sp == old(self).sp <= STACK_SIZE,
                self@ == (MachineView { video: self@.video, ..m }),
                ptr == m.ri,
                x < REGISTERS_COUNT,
                y < REGISTERS_COUNT,
                row == row0 < DISPLAY_HEIGHT,
                col == col0 < DISPLAY_WIDTH,
                forall|k: int| 0 <= k < DISPLAY_CELLS ==> #[trigger] self@.video[k] <= 1,
                row0 == (m.reg[y as int] % 32) as int,
                col0 == (m.reg[x as int] % 64) as int,
                n == height,
                row0 + rows <= DISPLAY_HEIGHT,
                rows == n || row0 + rows == DISPLAY_HEIGHT,
                rows <= n,
                col0 + cols <= DISPLAY_WIDTH,
                cols == 8 || col0 + cols == DISPLAY_WIDTH,
                cols <= 8,
                i <= rows,
                self@.video.len() == DISPLAY_CELLS,
                forall|k: int|
                    0 <= k < DISPLAY_CELLS ==> #[trigger] self@.video[k] == if drawn(
                        row0,
                        col0,
                        n,
                        i as int,
                        0,
                        k,
                    ) {
                        m.video[k] ^ sprite_pixel(m, row0, col0, k)
                    } else {
                        m.video[k]
                    },
                hit == exists|k: int|
                    0 <= k < DISPLAY_CELLS && drawn(row0, col0, n, i as int, 0, k)
                        && #[trigger] collides(m, row0, col0, k),
            decreases rows - i,
        {
            let val = self.memory[(ptr + i) % MEMORY_SIZE];
            let mut j: usize = 0;
            while j < cols
                invariant
                    valid(m),
                    self.sp == old(self).sp <= STACK_SIZE,
                    self@ == (MachineView { video: self@.video, ..m }),
                    ptr == m.ri,
                    x < REGISTERS_COUNT,
                    y < REGISTERS_COUNT,
                    row == row0 < DISPLAY_HEIGHT,
                    col == col0 < DISPLAY_WIDTH,
                    forall|k: int| 0 <= k < DISPLAY_CELLS ==> #[trigger] self@.video[k] <= 1,
                    row0 == (m.reg[y as int] % 32) as int,
                    col0 == (m.reg[x as int] % 64) as int,
                    n == height,
                    row0 + rows <= DISPLAY_HEIGHT,
                    rows <= n,
                    col0 + cols <= DISPLAY_WIDTH,
                    cols == 8 || col0 + cols == DISPLAY_WIDTH,
                    cols <= 8,
                    i < rows,
                    j <= cols,
                    val == m.memory[addr(m.ri + i)],
                    self@.video.len() == DISPLAY_CELLS,
                    forall|k: int|
                        0 <= k < DISPLAY_CELLS ==> #[trigger] self@.video[k] == if drawn(
                            row0,
                            col0,
                            n,
                            i as int,
                            j as int,
                            k,
                        ) {
                            m.video[k] ^ sprite_pixel(m, row0, col0, k)
                        } else {
                            m.video[k]
                        },
                    hit == exists|k: int|
                        0 <= k < DISPLAY_CELLS && drawn(row0, col0, n, i as int, j as int, k)
                            && #[trigger] collides(m, row0, col0, k),
                decreases cols - j,
            {
                let r = row + i;
                let c = col + j;
                let idx = r * DISPLAY_WIDTH + c;
                let pixel = (val >> ((7 - j) as u8)) & 1;
                let prev = self.video_memory[idx];
                proof {
                    assert(idx / 64 == r && idx % 64 == c);
                    assert(pixel == sprite_pixel(m, row0, col0, idx as int));
                    assert((val >> ((7 - j) as u8)) & 1 <= 1) by (bit_vector);
                    lemma_cell_bits(prev, pixel);
                    assert forall|k: int|
                        0 <= k < DISPLAY_CELLS implies #[trigger] drawn(
                            row0,
                            col0,
                            n,
                            i as int,
                            j + 1,
                            k,
                        ) == (drawn(row0, col0, n, i as int, j as int, k) || k == idx) by {
                        if k == idx {
                            assert(k / 64 == r && k % 64 == c);
                        }
                    }
                }
                if prev & pixel > 0 {
                    hit = true;
                    assert(collides(m, row0, col0, idx as int));
                }
                self.video_memory[idx] = prev ^ pixel;
                j += 1;
            }
            proof {
                assert forall|k: int|
                    0 <= k < DISPLAY_CELLS implies #[trigger] drawn(
                        row0,
                        col0,
                        n,
                        i + 1,
                        0,
                        k,
                    ) == drawn(row0, col0, n, i as int, cols as int, k) by {}
            }
            i += 1;
        }
        proof {
            assert forall|k: int|
                0 <= k < DISPLAY_CELLS implies #[trigger] drawn(row0, col0, n, rows as int, 0, k)
                == covers(row0, col0, n, k) by {}
        }
        assert(self@.video =~= draw_view(m, x as int, y as int, height).video);
        self.reg[0xf] = if hit {
            1
        } else {
            0
        };
    }

    fn op_bdc(&mut self, x: usize)
        requires
            old(self).wf(),
            x < REGISTERS_COUNT,
        ensures
            final(self).wf(),
            final(self)@ == bcd_view(old(self)@, x as int),
    {
        let val = self.reg[x];
        let ptr = self.ri as usize;
        self.memory[ptr % MEMORY_SIZE] = val / 100;
        self.memory[(ptr + 1) % MEMORY_SIZE] = val / 10 % 10;
        self.memory[(ptr + 2) % MEMORY_SIZE] = val % 10;
    }

    fn op_reg_dump(&mut self, x: usize)
        requires
            old(self).wf(),
            x < REGISTERS_COUNT,
        ensures
            final(self).wf(),
            final(self)@ == dump_view(old(self)@, x as int),
    {
        let ghost m = old(self)@;
        let ptr = self.ri as usize;
        let mut offset: usize = 0;
        while offset <= x
            invariant
                valid(m),
                x < REGISTERS_COUNT,
                offset <= x + 1,
                ptr == m.ri,
                self.sp == old(self).sp <= STACK_SIZE,
                self@ == (MachineView { memory: self@.memory, ..m }),
                self@.memory.len() == MEMORY_SIZE,
                forall|k: int|
                    0 <= k < MEMORY_SIZE ==> #[trigger] self@.memory[k] == if addr(k - m.ri)
                        < offset {
                        m.reg[addr(k - m.ri)]
                    } else {
                        m.memory[k]
                    },
            decreases x + 1 - offset,
        {
            let a = (ptr + offset) % MEMORY_SIZE;
            proof {
                assert forall|k: int| 0 <= k < MEMORY_SIZE implies (#[trigger] addr(k - m.ri) == offset) == (k
                    == a) by {
                    lemma_addr_offset(k, m.ri as int, offset as int);
                }
            }
            self.memory[a] = self.reg[offset];
            offset += 1;
        }
        if self.quirks.memory {
            self.ri = self.ri.wrapping_add(x as u16 + 1);
        }
        assert(self@.memory =~= dump_view(m, x as int).memory);
    }

    fn op_reg_load(&mut self, x: usize)
        requires
            old(self).wf(),
            x < REGISTERS_COUNT,
        ensures
            final(self).wf(),
            final(self)@ == load_view(old(self)@, x as int),
    {
        let ghost m = old(self)@;
        let ptr = self.ri as usize;
        let mut offset: usize = 0;
        while offset <= x
            invariant
                valid(m),
                x < REGISTERS_COUNT,
                offset <= x + 1,
                ptr == m.ri,
                self.sp == old(self).sp <= STACK_SIZE,
                self@ == (MachineView { reg: self@.reg, ..m }),
                self@.reg.len() == REGISTERS_COUNT,
                forall|k: int|
                    0 <= k < REGISTERS_COUNT ==> #[trigger] self@.reg[k] == if k < offset {
                        m.memory[addr(m.ri + k)]
                    } else {
                        m.reg[k]
                    },
            decreases x + 1 - offset,
        {
            self.reg[offset] = self.memory[(ptr + offset) % MEMORY_SIZE];
            offset += 1;
        }
        if self.quirks.memory {
            self.ri = self.ri.wrapping_add(x as u16 + 1);
        }
        assert(self@.reg =~= load_view(m, x as int).reg);
    }

    fn op_ptr_add(&mut self, x: usize)
        requires
            old(self).wf(),
            x < REGISTERS_COUNT,
        ensures
            final(self).wf(),
            final(self)@ == misc_view(old(self)@, x as int, 0x1e),
    {
        let val = self.reg[x];
        self.ri = self.ri.wrapping_add(val as u16);
    }

    fn op_mov_font_addr(&mut self, x: usize)
        requires
            old(self).wf(),
            x < REGISTERS_COUNT,
        ensures
            final(self).wf(),
            final(self)@ == misc_view(old(self)@, x as int, 0x29),
    {
        let val = self.reg[x] as u16;
        self.ri = FONT_BASE_ADDRESS as u16 + val * 5;
    }

    fn op_set_delay(&mut self, x: usize)
        requires
            old(self).wf(),
            x < REGISTERS_COUNT,
        ensures
            final(self).wf(),
            final(self)@ == misc_view(old(self)@, x as int, 0x15),
    {
        self.dt = self.reg[x];
    }

    fn op_set_sound(&mut self, x: usize)
        requires
            old(self).wf(),
            x < REGISTERS_COUNT,
        ensures
            final(self).wf(),
            final(self)@ == misc_view(old(self)@, x as int, 0x18),
    {
        self.st = self.reg[x];
    }

    fn op_dump_delay(&mut self, x: usize)
        requires
            old(self).wf(),
            x < REGISTERS_COUNT,
        ensures
            final(self).wf(),
            final(self)@ == misc_view(old(self)@, x as int, 0x07),
    {
        self.reg[x] = self.dt;
    }

    fn op_skip_key_eq(&mut self, x: usize)
        requires
            old(self).wf(),
            x < REGISTERS_COUNT,
        ensures
            final(self).wf(),
            final(self)@ == skip_if(
                old(self)@,
                old(self)@.keypad[(old(self)@.reg[x as int] % 16) as int],
            ),
    {
        if self.keypad[(self.reg[x] % 16) as usize] {
            self.pc = (self.pc + 2) % MEMORY_SIZE;
        }
    }

    fn op_skip_key_ne(&mut self, x: usize)
        requires
            old(self).wf(),
            x < REGISTERS_COUNT,
        ensures
            final(self).wf(),
            final(self)@ == skip_if(
                old(self)@,
                !old(self)@.keypad[(old(self)@.reg[x as int] % 16) as int],
            ),
    {
        if !self.keypad[(self.reg[x] % 16) as usize] {
            self.pc = (self.pc + 2) % MEMORY_SIZE;
        }
    }

    fn op_wait_key(&mut self, x: usize)
        requires
            old(self).wf(),
            x < REGISTERS_COUNT,
        ensures
            final(self).wf(),
            final(self)@ == wait_key_view(old(self)@, x as int),
    {
        let mut key: usize = 0;
        while key < KEYS_COUNT && !self.keypad[key]
            invariant
                key <= KEYS_COUNT,
                self.keypad@.len() == KEYS_COUNT,
                first_pressed(self.keypad@, 0) == first_pressed(self.keypad@, key as int),
            decreases KEYS_COUNT - key,
        {
            key += 1;
        }
        if key < KEYS_COUNT {
            self.reg[x] = key as u8;
        } else {
            self.pc = (self.pc + MEMORY_SIZE - 2) % MEMORY_SIZE;
        }
    }

    pub fn get_state(&self) -> (r: State)
        ensures
            r == self@.state,
    {
        self.state
    }

    pub fn terminate(&mut self)
        requires
            old(self).wf(),
        ensures
            final(self).wf(),
            final(self)@ == (MachineView { state: State::Terminated, ..old(self)@ }),
    {
        self.state = State::Terminated;
    }

    pub fn toggle_execution(&mut self)
        requires
            old(self).wf(),
        ensures
            final(self).wf(),
            final(self)@ == toggle_view(old(self)@),
    {
        self.state = match self.state {
            State::Paused => State::Running,
            State::Running => State::Paused,
            State::Terminated => State::Terminated,
        };
    }

    pub fn on_timer(&mut self)
        requires
            old(self).wf(),
        ensures
            final(self).wf(),
            final(self)@ == timer_view(old(self)@),
    {
        self.dt = self.dt.saturating_sub(1);
        self.st = self.st.saturating_sub(1);
    }

    pub fn key_down(&mut self, key_code: u8)
        requires
            old(self).wf(),
            key_code < KEYS_COUNT,
        ensures
            final(self).wf(),
            final(self)@ == key_view(old(self)@, key_code, true),
    {
        self.keypad[key_code as usize] = true;
    }

    pub fn key_up(&mut self, key_code: u8)
        requires
            old(self).wf(),
            key_code < KEYS_COUNT,
        ensures
            final(self).wf(),
            final(self)@ == key_view(old(self)@, key_code, false),
    {
        self.keypad[key_code as usize] = false;
    }

    pub fn is_audio_playing(&self) -> (r: bool)
        ensures
            r == (self@.st > 0),
    {
        self.st > 0
    }
    /// The framebuffer, 64 cells per row, 32 rows, each 0 or 1.
    pub fn get_video_ram(&self) -> (r: &[u8])
        ensures
            r@ == self@.video,
    {
        self.video_memory.as_slice()
    }

    /// The value of register Vx.
    pub fn register(&self, x: usize) -> (r: u8)
        requires
            self.wf(),
            x < REGISTERS_COUNT,
        ensures
            r == self@.reg[x as int],
    {
        self.reg[x]
    }

    /// The index register I.
    pub fn index_register(&self) -> (r: u16)
        ensures
            r == self@.ri,
    {
        self.ri
    }

    pub fn program_counter(&self) -> (r: usize)
        ensures
            r == self@.pc,
    {
        self.pc
    }

    /// The memory byte at `address`.
    pub fn memory_at(&self, address: usize) -> (r: u8)
        requires
            self.wf(),
            address < MEMORY_SIZE,
        ensures
            r == self@.memory[address as int],
    {
        self.memory[address]
    }

    pub fn delay_timer(&self) -> (r: u8)
        ensures
            r == self@.dt,
    {
        self.dt
    }

    pub fn sound_timer(&self) -> (r: u8)
        ensures
            r == self@.st,
    {
        self.st
    }

    /// How many return addresses the stack holds.
    pub fn stack_depth(&self) -> (r: usize)
        requires
            self.wf(),
        ensures
            r == self@.stack.len(),
    {
        self.sp
    }

    /// Whether key `key_code` is held.
    pub fn is_key_down(&self, key_code: u8) -> (r: bool)
        requires
            self.wf(),
            key_code < KEYS_COUNT,
        ensures
            r == self@.keypad[key_code as int],
    {
        self.keypad[key_code as usize]
    }
}

} // verus!
