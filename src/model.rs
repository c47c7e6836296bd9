use vstd::prelude::*;

use crate::chip8::{Error, Quirks, State, FONT_SPRITES};
use crate::instruction::{decode, opcode_of, Instruction};

verus! {

/// The abstract state of a machine.
pub struct MachineView {
    /// All 4096 bytes of memory.
    pub memory: Seq<u8>,
    /// V0 to VF.
    pub reg: Seq<u8>,
    /// The index register I.
    pub ri: u16,
    /// The delay timer.
    pub dt: u8,
    /// The sound timer.
    pub st: u8,
    /// The return addresses, the most recent last.
    pub stack: Seq<u16>,
    /// The program counter.
    pub pc: int,
    /// The framebuffer, row-major, one cell per pixel.
    pub video: Seq<u8>,
    /// Which of the sixteen keys are held down.
    pub keypad: Seq<bool>,
    pub state: State,
    /// The program the machine was built from.
    pub rom: Seq<u8>,
    pub quirks: Quirks,
}

pub open spec fn font_glyphs() -> Seq<u8> {
    FONT_SPRITES@
}

/// The shape every reachable state has.
pub open spec fn valid(m: MachineView) -> bool {
    &&& m.memory.len() == 4096
    &&& m.reg.len() == 16
    &&& m.stack.len() <= 16
    &&& 0 <= m.pc < 4096
    &&& m.video.len() == 2048
    &&& forall|i: int| 0 <= i < 2048 ==> #[trigger] m.video[i] <= 1
    &&& m.keypad.len() == 16
    &&& m.rom.len() <= 0xe00
}

/// Memory as loaded: the font at 0x050, the program at 0x200, zero elsewhere.
pub open spec fn initial_memory(rom: Seq<u8>) -> Seq<u8> {
    Seq::new(
        4096,
        |i: int|
            if 0x50 <= i < 0xa0 {
                font_glyphs()[i - 0x50]
            } else if 0x200 <= i < 0x200 + rom.len() {
                rom[i - 0x200]
            } else {
                0u8
            },
    )
}

/// The state of a machine freshly built, or reset, with `rom` and `quirks`.
pub open spec fn initial_view(rom: Seq<u8>, quirks: Quirks) -> MachineView {
    MachineView {
        memory: initial_memory(rom),
        reg: Seq::new(16, |i: int| 0u8),
        ri: 0,
        dt: 0,
        st: 0,
        stack: Seq::empty(),
        pc: 0x200,
        video: Seq::new(2048, |i: int| 0u8),
        keypad: Seq::new(16, |i: int| false),
        state: State::Running,
        rom,
        quirks,
    }
}

/// Running and Paused swap; Terminated stays.
pub open spec fn toggle_view(m: MachineView) -> MachineView {
    MachineView {
        state: match m.state {
            State::Running => State::Paused,
            State::Paused => State::Running,
            State::Terminated => State::Terminated,
        },
        ..m
    }
}

/// One 60 Hz tick: both timers count down, stopping at zero.
pub open spec fn timer_view(m: MachineView) -> MachineView {
    MachineView {
        dt: if m.dt > 0 { (m.dt - 1) as u8 } else { 0 },
        st: if m.st > 0 { (m.st - 1) as u8 } else { 0 },
        ..m
    }
}

/// Key `code` is now held (`down`) or released.
pub open spec fn key_view(m: MachineView, code: u8, down: bool) -> MachineView {
    MachineView { keypad: m.keypad.update(code as int, down), ..m }
}

/// Pushes `v` on a return-address stack of sixteen slots.
pub open spec fn stack_push(s: Seq<u16>, v: u16) -> Result<Seq<u16>, Error> {
    if s.len() >= 16 {
        Err(Error::StackOverflow)
    } else {
        Ok(s.push(v))
    }
}

/// Pops the most recent address off a return-address stack.
pub open spec fn stack_pop(s: Seq<u16>) -> Result<(u16, Seq<u16>), Error> {
    if s.len() == 0 {
        Err(Error::EmptyStack)
    } else {
        Ok((s.last(), s.drop_last()))
    }
}

/// A push on the machine's stack; on failure the machine is unchanged.
pub open spec fn push_view(m: MachineView, v: u16) -> (MachineView, Result<(), Error>) {
    match stack_push(m.stack, v) {
        Ok(s) => (MachineView { stack: s, ..m }, Ok(())),
        Err(e) => (m, Err(e)),
    }
}

/// A pop off the machine's stack; on failure the machine is unchanged.
pub open spec fn pop_view(m: MachineView) -> (MachineView, Result<u16, Error>) {
    match stack_pop(m.stack) {
        Ok((v, s)) => (MachineView { stack: s, ..m }, Ok(v)),
        Err(e) => (m, Err(e)),
    }
}

/// A memory address as the machine uses it: 12 bits, wrapping.
pub open spec fn addr(a: int) -> int {
    a % 4096
}

/// Vx takes the value `v`.
pub open spec fn set_reg(m: MachineView, x: int, v: u8) -> MachineView {
    MachineView { reg: m.reg.update(x, v), ..m }
}

/// Vx takes `v`, then VF takes the flag `f`.
pub open spec fn set_with_flag(m: MachineView, x: int, v: u8, f: u8) -> MachineView {
    set_reg(set_reg(m, x, v), 15, f)
}

/// The next instruction is skipped when `cond` holds.
pub open spec fn skip_if(m: MachineView, cond: bool) -> MachineView {
    if cond {
        MachineView { pc: addr(m.pc + 2), ..m }
    } else {
        m
    }
}

pub open spec fn clear_view(m: MachineView) -> MachineView {
    MachineView { video: Seq::new(2048, |i: int| 0u8), ..m }
}

/// Return: the program counter takes the popped address.
pub open spec fn return_view(m: MachineView) -> (MachineView, Result<(), Error>) {
    match stack_pop(m.stack) {
        Ok((v, s)) => (MachineView { stack: s, pc: addr(v as int), ..m }, Ok(())),
        Err(e) => (m, Err(e)),
    }
}

/// Call: the (already advanced) program counter is saved, then replaced.
pub open spec fn call_view(m: MachineView, target: u16) -> (MachineView, Result<(), Error>) {
    match stack_push(m.stack, m.pc as u16) {
        Ok(s) => (MachineView { stack: s, pc: target as int, ..m }, Ok(())),
        Err(e) => (m, Err(e)),
    }
}

/// The register-register arithmetic family, selected by `n`.
pub open spec fn alu_view(m: MachineView, x: int, y: int, n: u8) -> MachineView {
    let vx = m.reg[x];
    let vy = m.reg[y];
    let src = if m.quirks.shifting {
        vx
    } else {
        vy
    };
    let bitwise = |v: u8|
        if m.quirks.vf_reset {
            set_with_flag(m, x, v, 0)
        } else {
            set_reg(m, x, v)
        };
    if n == 0 {
        set_reg(m, x, vy)
    } else if n == 1 {
        bitwise(vx | vy)
    } else if n == 2 {
        bitwise(vx & vy)
    } else if n == 3 {
        bitwise(vx ^ vy)
    } else if n == 4 {
        set_with_flag(m, x, ((vx + vy) % 256) as u8, if vx + vy > 255 { 1 } else { 0 })
    } else if n == 5 {
        set_with_flag(m, x, ((vx - vy) % 256) as u8, if vy <= vx { 1 } else { 0 })
    } else if n == 6 {
        set_with_flag(m, x, src / 2, src % 2)
    } else if n == 7 {
        set_with_flag(m, x, ((vy - vx) % 256) as u8, if vx <= vy { 1 } else { 0 })
    } else {
        set_with_flag(m, x, ((src * 2) % 256) as u8, src / 128)
    }
}

/// The sub-selectors of the arithmetic family that have a handler.
pub open spec fn alu_known(n: u8) -> bool {
    n <= 7 || n == 0xe
}

/// Indexed jump: to `nnn` plus V0, or plus the register that the top
/// nibble of `nnn` names under the jumping quirk.
pub open spec fn indexed_jump_view(m: MachineView, nnn: u16) -> MachineView {
    let base = if m.quirks.jumping {
        m.reg[((nnn / 256) % 16) as int]
    } else {
        m.reg[0]
    };
    MachineView { pc: addr(base + nnn), ..m }
}

/// Bit `j` of a sprite row, counting from the most significant.
pub open spec fn sprite_bit(byte: u8, j: int) -> u8 {
    (byte >> ((7 - j) as u8)) & 1
}

/// Cell `k` lies under a sprite of `n` rows whose origin is (`row0`, `col0`).
pub open spec fn covers(row0: int, col0: int, n: int, k: int) -> bool {
    &&& row0 <= k / 64 < row0 + n
    &&& col0 <= k % 64 < col0 + 8
}

/// The sprite's pixel over cell `k`.
pub open spec fn sprite_pixel(m: MachineView, row0: int, col0: int, k: int) -> u8 {
    sprite_bit(m.memory[addr(m.ri + (k / 64 - row0))], k % 64 - col0)
}

/// Cell `k` is lit and the sprite's pixel over it is set.
pub open spec fn collides(m: MachineView, row0: int, col0: int, k: int) -> bool {
    m.video[k] == 1 && sprite_pixel(m, row0, col0, k) == 1
}

/// Draw: `n` rows from memory at I are XORed onto the framebuffer at
/// (Vy mod 32, Vx mod 64); what passes the right or bottom edge is
/// dropped. VF tells whether any lit cell went dark.
pub open spec fn draw_view(m: MachineView, x: int, y: int, n: u8) -> MachineView {
    let row0 = (m.reg[y] % 32) as int;
    let col0 = (m.reg[x] % 64) as int;
    let video = Seq::new(
        2048,
        |k: int|
            if covers(row0, col0, n as int, k) {
                m.video[k] ^ sprite_pixel(m, row0, col0, k)
            } else {
                m.video[k]
            },
    );
    let hit = exists|k: int|
        0 <= k < 2048 && covers(row0, col0, n as int, k) && #[trigger] collides(m, row0, col0, k);
    set_reg(MachineView { video, ..m }, 15, if hit { 1 } else { 0 })
}

/// The lowest held key at or after `from`, or 16 when none is.
pub open spec fn first_pressed(keys: Seq<bool>, from: int) -> int
    decreases 16 - from,
{
    if from >= 16 {
        16
    } else if keys[from] {
        from
    } else {
        first_pressed(keys, from + 1)
    }
}

/// Wait for a key: Vx takes the lowest held key; with none held the
/// program counter steps back onto this instruction.
pub open spec fn wait_key_view(m: MachineView, x: int) -> MachineView {
    let k = first_pressed(m.keypad, 0);
    if k < 16 {
        set_reg(m, x, k as u8)
    } else {
        MachineView { pc: addr(m.pc + 4094), ..m }
    }
}

/// The decimal digits of Vx at I, I+1 and I+2.
pub open spec fn bcd_view(m: MachineView, x: int) -> MachineView {
    let v = m.reg[x];
    let a = m.ri as int;
    MachineView {
        memory: m.memory.update(addr(a), v / 100).update(addr(a + 1), (v / 10) % 10).update(
            addr(a + 2),
            v % 10,
        ),
        ..m
    }
}

/// I after a register dump or load of V0..Vx.
pub open spec fn index_after_transfer(m: MachineView, x: int) -> u16 {
    if m.quirks.memory {
        ((m.ri + x + 1) % 65536) as u16
    } else {
        m.ri
    }
}

/// V0..Vx are stored at I..I+x.
pub open spec fn dump_view(m: MachineView, x: int) -> MachineView {
    MachineView {
        memory: Seq::new(
            4096,
            |k: int|
                if addr(k - m.ri) <= x {
                    m.reg[addr(k - m.ri)]
                } else {
                    m.memory[k]
                },
        ),
        ri: index_after_transfer(m, x),
        ..m
    }
}

/// V0..Vx are loaded from I..I+x.
pub open spec fn load_view(m: MachineView, x: int) -> MachineView {
    MachineView {
        reg: Seq::new(
            16,
            |k: int|
                if k <= x {
                    m.memory[addr(m.ri + k)]
                } else {
                    m.reg[k]
                },
        ),
        ri: index_after_transfer(m, x),
        ..m
    }
}

/// The timer and index family, selected by `nn`.
pub open spec fn misc_view(m: MachineView, x: int, nn: u8) -> MachineView {
    let vx = m.reg[x];
    if nn == 0x07 {
        set_reg(m, x, m.dt)
    } else if nn == 0x0a {
        wait_key_view(m, x)
    } else if nn == 0x15 {
        MachineView { dt: vx, ..m }
    } else if nn == 0x18 {
        MachineView { st: vx, ..m }
    } else if nn == 0x1e {
        MachineView { ri: ((m.ri + vx) % 65536) as u16, ..m }
    } else if nn == 0x29 {
        MachineView { ri: (0x50 + vx * 5) as u16, ..m }
    } else if nn == 0x33 {
        bcd_view(m, x)
    } else if nn == 0x55 {
        dump_view(m, x)
    } else {
        load_view(m, x)
    }
}

/// The sub-selectors of the timer and index family that have a handler.
pub open spec fn misc_known(nn: u8) -> bool {
    nn == 0x07 || nn == 0x0a || nn == 0x15 || nn == 0x18 || nn == 0x1e || nn == 0x29 || nn
        == 0x33 || nn == 0x55 || nn == 0x65
}

pub open spec fn ok(m: MachineView) -> (MachineView, Result<(), Error>) {
    (m, Ok(()))
}

/// The effect of `ins` on `m`, whose program counter is already past it;
/// `rnd` is the byte the random instruction draws.
pub open spec fn execute(m: MachineView, ins: Instruction, rnd: u8) -> (
    MachineView,
    Result<(), Error>,
) {
    let x = ins.x as int;
    let y = ins.y as int;
    let vx = m.reg[x];
    let vy = m.reg[y];
    let unknown = (m, Err(Error::UnknownInstruction(ins)));
    if ins.header == 0x0 {
        if ins.nnn == 0xe0 {
            ok(clear_view(m))
        } else if ins.nnn == 0xee {
            return_view(m)
        } else {
            ok(m)
        }
    } else if ins.header == 0x1 {
        ok(MachineView { pc: ins.nnn as int, ..m })
    } else if ins.header == 0x2 {
        call_view(m, ins.nnn)
    } else if ins.header == 0x3 {
        ok(skip_if(m, vx == ins.nn))
    } else if ins.header == 0x4 {
        ok(skip_if(m, vx != ins.nn))
    } else if ins.header == 0x5 {
        ok(skip_if(m, vx == vy))
    } else if ins.header == 0x6 {
        ok(set_reg(m, x, ins.nn))
    } else if ins.header == 0x7 {
        ok(set_reg(m, x, ((vx + ins.nn) % 256) as u8))
    } else if ins.header == 0x8 {
        if alu_known(ins.n) {
            ok(alu_view(m, x, y, ins.n))
        } else {
            unknown
        }
    } else if ins.header == 0x9 {
        ok(skip_if(m, vx != vy))
    } else if ins.header == 0xa {
        ok(MachineView { ri: ins.nnn, ..m })
    } else if ins.header == 0xb {
        ok(indexed_jump_view(m, ins.nnn))
    } else if ins.header == 0xc {
        ok(set_reg(m, x, ins.nn & rnd))
    } else if ins.header == 0xd {
        ok(draw_view(m, x, y, ins.n))
    } else if ins.header == 0xe {
        if ins.nn == 0x9e {
            ok(skip_if(m, m.keypad[(vx % 16) as int]))
        } else if ins.nn == 0xa1 {
            ok(skip_if(m, !m.keypad[(vx % 16) as int]))
        } else {
            unknown
        }
    } else if ins.header == 0xf {
        if misc_known(ins.nn) {
            ok(misc_view(m, x, ins.nn))
        } else {
            unknown
        }
    } else {
        unknown
    }
}

/// The opcode at the program counter.
pub open spec fn fetch(m: MachineView) -> u16 {
    opcode_of(m.memory[m.pc], m.memory[addr(m.pc + 1)])
}

/// One step: nothing unless Running; else fetch, advance the program
/// counter by two, and execute.
pub open spec fn step_view(m: MachineView, rnd: u8) -> (MachineView, Result<(), Error>) {
    if m.state != State::Running {
        ok(m)
    } else {
        execute(MachineView { pc: addr(m.pc + 2), ..m }, decode(fetch(m)), rnd)
    }
}

} // verus!
