use vstd::prelude::*;
use crate::emulator::memory::{FONT_START, GLYPH_SIZE, MEMORY_SIZE, STACK_SIZE};
use crate::emulator::opcode::{decode_spec, Opcode};
use crate::emulator::screen::{blit, collides, is_monochrome, touches};
use crate::error::Chip8Error;
use crate::keypad::{is_down_spec, pressed_key_spec};

verus! {

/// Index of `VF`, the register that instructions use as a flag.
pub const FLAG_REGISTER: usize = 0xF;

/// Number of general registers.
pub const REGISTER_COUNT: usize = 16;

/// The whole state of the machine as a mathematical value: what an
/// instruction reads and what it may change.
#[verifier::ext_equal]
pub struct Machine {
    /// The registers `V0` to `VF`.
    pub v: Seq<u8>,
    /// The program counter.
    pub pc: u16,
    /// The number of return addresses on the call stack.
    pub sp: u16,
    /// The index register `I`.
    pub i: u16,
    /// The pixel buffer, row by row.
    pub vram: Seq<u8>,
    /// Whether the pixel buffer has changed since it was last shown.
    pub draw_dirty: bool,
    /// Pixels in a row of the buffer.
    pub width: usize,
    /// Rows in the buffer.
    pub height: usize,
    /// The address space.
    pub ram: Seq<u8>,
    /// The call stack's storage.
    pub stack: Seq<u16>,
    /// The delay timer.
    pub delay: u8,
    /// The sound timer.
    pub sound: u8,
}

impl Machine {
    /// The parts have their sizes, the stack pointer is within the stack,
    /// and every pixel is 0 or 1.
    pub open spec fn wf(self) -> bool {
        &&& self.v.len() == REGISTER_COUNT
        &&& self.ram.len() == MEMORY_SIZE
        &&& self.stack.len() == STACK_SIZE
        &&& self.vram.len() == self.width * self.height
        &&& self.sp <= STACK_SIZE
        &&& is_monochrome(self.vram)
    }
}

/// A condition as a flag value.
pub open spec fn flag(condition: bool) -> u8 {
    if condition {
        1
    } else {
        0
    }
}

/// `value` reduced to 8 bits.
pub open spec fn wrap8(value: int) -> u8 {
    (value % 0x100) as u8
}

/// `value` reduced to 16 bits.
pub open spec fn wrap16(value: int) -> u16 {
    (value % 0x1_0000) as u16
}

/// The machine with the next instruction skipped if `condition` holds.
pub open spec fn skip_if(m: Machine, condition: bool) -> Machine {
    if condition {
        Machine { pc: wrap16(m.pc + 2), ..m }
    } else {
        m
    }
}

/// Where a sprite starts along an axis of `extent` pixels: the coordinate
/// masked by `extent - 1`, which wraps it into the buffer when `extent` is a
/// power of two.
pub open spec fn origin(coordinate: u8, extent: usize) -> usize {
    if extent == 0 {
        0
    } else {
        (coordinate as usize) & ((extent - 1) as usize)
    }
}

/// How many of a sprite's `n` rows lie inside a buffer of `height` rows when
/// the first is drawn at row `row0`.
pub open spec fn visible_rows(n: u8, row0: usize, height: usize) -> int {
    if row0 >= height {
        0
    } else if n < height - row0 {
        n as int
    } else {
        height - row0
    }
}

/// The 16-bit word whose high byte is at `addr` and whose low byte follows it.
pub open spec fn word_at(ram: Seq<u8>, addr: int) -> u16 {
    ((ram[addr] as u16) << 8) | (ram[addr + 1] as u16)
}

/// The word at an address is its first byte times 256 plus its second byte.
pub proof fn lemma_word_at_is_big_endian(ram: Seq<u8>, addr: int)
    ensures
        word_at(ram, addr) == ram[addr] * 256 + ram[addr + 1],
{
    let high = ram[addr];
    let low = ram[addr + 1];
    assert(((high as u16) << 8) | (low as u16) == high * 256 + low) by (bit_vector);
}

/// The instruction word at the program counter and the machine with the
/// program counter past it, or the error of a word that is not wholly inside
/// memory.
pub open spec fn fetch_spec(m: Machine) -> Result<(u16, Machine), Chip8Error> {
    if m.pc + 1 >= MEMORY_SIZE {
        Err(Chip8Error::MemoryOutOfRange)
    } else {
        Ok((word_at(m.ram, m.pc as int), Machine { pc: (m.pc + 2) as u16, ..m }))
    }
}

/// Family 0: clear the screen, return from a subroutine, or nothing.
pub open spec fn system_spec(m: Machine, op: Opcode) -> Result<Machine, Chip8Error> {
    if op.opcode == 0x00E0 {
        Ok(Machine { vram: Seq::new(m.vram.len(), |p: int| 0u8), draw_dirty: true, ..m })
    } else if op.opcode == 0x00EE {
        if m.sp == 0 {
            Err(Chip8Error::StackUnderflow)
        } else {
            Ok(Machine { pc: m.stack[m.sp - 1], sp: (m.sp - 1) as u16, ..m })
        }
    } else {
        Ok(m)
    }
}

/// Family 2: call the subroutine at `nnn`.
pub open spec fn call_spec(m: Machine, op: Opcode) -> Result<Machine, Chip8Error> {
    if m.sp >= STACK_SIZE {
        Err(Chip8Error::StackOverflow)
    } else {
        Ok(
            Machine {
                stack: m.stack.update(m.sp as int, m.pc),
                sp: (m.sp + 1) as u16,
                pc: op.nnn,
                ..m
            },
        )
    }
}

/// Family 8: the registers after the register-to-register operation `n` on
/// `Vx` and `Vy`. Where an operation writes both `Vx` and the flag, the later
/// write stands if `x` names the flag register.
pub open spec fn alu_spec(v: Seq<u8>, x: int, y: int, n: u8) -> Seq<u8> {
    let vx = v[x];
    let vy = v[y];
    let vf = FLAG_REGISTER as int;
    if n == 0 {
        v.update(x, vy)
    } else if n == 1 {
        v.update(x, vx | vy)
    } else if n == 2 {
        v.update(x, vx & vy)
    } else if n == 3 {
        v.update(x, vx ^ vy)
    } else if n == 4 {
        v.update(x, wrap8(vx + vy)).update(vf, flag(vx + vy > 0xFF))
    } else if n == 5 {
        v.update(vf, flag(vx > vy)).update(x, wrap8(vx - vy))
    } else if n == 6 {
        v.update(vf, vx & 1).update(x, vx >> 1)
    } else if n == 7 {
        v.update(vf, flag(vy > vx)).update(x, wrap8(vy - vx))
    } else if n == 0xE {
        v.update(vf, (vx >> 7) & 1).update(x, vx << 1)
    } else {
        v
    }
}

/// Family D: draw the `n`-row sprite at `I` with its corner at (`Vx`, `Vy`).
pub open spec fn draw_spec(m: Machine, op: Opcode) -> Result<Machine, Chip8Error> {
    let col0 = origin(m.v[op.x as int], m.width);
    let row0 = origin(m.v[op.y as int], m.height);
    let rows = visible_rows(op.n, row0, m.height);
    if m.i + rows > MEMORY_SIZE {
        Err(Chip8Error::MemoryOutOfRange)
    } else {
        let sprite = m.ram.subrange(m.i as int, m.i + rows);
        Ok(
            Machine {
                vram: blit(m.vram, sprite, m.width as int, row0 as int, col0 as int),
                v: m.v.update(
                    FLAG_REGISTER as int,
                    flag(collides(m.vram, sprite, m.width as int, row0 as int, col0 as int)),
                ),
                draw_dirty: m.draw_dirty || touches(
                    m.vram,
                    sprite,
                    m.width as int,
                    row0 as int,
                    col0 as int,
                ),
                ..m
            },
        )
    }
}

/// Family E: skip on the state of key `Vx`.
pub open spec fn key_skip_spec(m: Machine, op: Opcode, keys: Seq<bool>) -> Machine {
    let down = is_down_spec(keys, m.v[op.x as int]);
    if op.nn == 0x9E {
        skip_if(m, down)
    } else if op.nn == 0xA1 {
        skip_if(m, !down)
    } else {
        m
    }
}

/// Memory after registers `V0` to `Vx` have been stored from address `I` on.
pub open spec fn dump_registers(ram: Seq<u8>, v: Seq<u8>, i: int, x: int) -> Seq<u8> {
    Seq::new(
        ram.len(),
        |a: int|
            if i <= a <= i + x {
                v[a - i]
            } else {
                ram[a]
            },
    )
}

/// The registers after `V0` to `Vx` have been loaded from address `I` on.
pub open spec fn load_registers(v: Seq<u8>, ram: Seq<u8>, i: int, x: int) -> Seq<u8> {
    Seq::new(
        v.len(),
        |r: int|
            if r <= x {
                ram[i + r]
            } else {
                v[r]
            },
    )
}

/// Family F: timers, key wait, index arithmetic, and memory transfers.
pub open spec fn misc_spec(m: Machine, op: Opcode, keys: Seq<bool>) -> Result<Machine, Chip8Error> {
    let x = op.x as int;
    let vx = m.v[x];
    if op.nn == 0x07 {
        Ok(Machine { v: m.v.update(x, m.delay), ..m })
    } else if op.nn == 0x0A {
        match pressed_key_spec(keys) {
            Some(key) => Ok(Machine { v: m.v.update(x, key), ..m }),
            None => Ok(Machine { pc: wrap16(m.pc - 2), ..m }),
        }
    } else if op.nn == 0x15 {
        Ok(Machine { delay: vx, ..m })
    } else if op.nn == 0x18 {
        Ok(Machine { sound: vx, ..m })
    } else if op.nn == 0x1E {
        Ok(
            Machine {
                i: ((m.i + vx) % 0x1000) as u16,
                v: m.v.update(FLAG_REGISTER as int, flag(m.i + vx > 0x0FFF)),
                ..m
            },
        )
    } else if op.nn == 0x29 {
        Ok(Machine { i: (FONT_START + GLYPH_SIZE * (vx & 0x0F)) as u16, ..m })
    } else if op.nn == 0x33 {
        if m.i + 2 >= MEMORY_SIZE {
            Err(Chip8Error::MemoryOutOfRange)
        } else {
            Ok(
                Machine {
                    ram: m.ram.update(m.i as int, vx / 100).update(m.i + 1, (vx / 10) % 10).update(
                        m.i + 2,
                        vx % 10,
                    ),
                    ..m
                },
            )
        }
    } else if op.nn == 0x55 {
        if m.i + x >= MEMORY_SIZE {
            Err(Chip8Error::MemoryOutOfRange)
        } else {
            Ok(Machine { ram: dump_registers(m.ram, m.v, m.i as int, x), ..m })
        }
    } else if op.nn == 0x65 {
        if m.i + x >= MEMORY_SIZE {
            Err(Chip8Error::MemoryOutOfRange)
        } else {
            Ok(Machine { v: load_registers(m.v, m.ram, m.i as int, x), ..m })
        }
    } else {
        Ok(m)
    }
}

/// The effect of one decoded instruction: the machine after it, or the error
/// that stopped it. `keys` are the key states of the keypad and `random` is
/// the byte that a random-number instruction mixes in. A word that is no
/// instruction leaves the machine as it is.
pub open spec fn execute_spec(m: Machine, op: Opcode, keys: Seq<bool>, random: u8) -> Result<
    Machine,
    Chip8Error,
> {
    let x = op.x as int;
    let y = op.y as int;
    let vx = m.v[x];
    let vy = m.v[y];
    if op.first_nibble == 0x0 {
        system_spec(m, op)
    } else if op.first_nibble == 0x1 {
        Ok(Machine { pc: op.nnn, ..m })
    } else if op.first_nibble == 0x2 {
        call_spec(m, op)
    } else if op.first_nibble == 0x3 {
        Ok(skip_if(m, vx == op.nn))
    } else if op.first_nibble == 0x4 {
        Ok(skip_if(m, vx != op.nn))
    } else if op.first_nibble == 0x5 {
        Ok(skip_if(m, vx == vy))
    } else if op.first_nibble == 0x6 {
        Ok(Machine { v: m.v.update(x, op.nn), ..m })
    } else if op.first_nibble == 0x7 {
        Ok(Machine { v: m.v.update(x, wrap8(vx + op.nn)), ..m })
    } else if op.first_nibble == 0x8 {
        Ok(Machine { v: alu_spec(m.v, x, y, op.n), ..m })
    } else if op.first_nibble == 0x9 {
        Ok(skip_if(m, vx != vy))
    } else if op.first_nibble == 0xA {
        Ok(Machine { i: op.nnn, ..m })
    } else if op.first_nibble == 0xB {
        Ok(Machine { pc: (op.nnn + m.v[0]) as u16, ..m })
    } else if op.first_nibble == 0xC {
        Ok(Machine { v: m.v.update(x, op.nn & random), ..m })
    } else if op.first_nibble == 0xD {
        draw_spec(m, op)
    } else if op.first_nibble == 0xE {
        Ok(key_skip_spec(m, op, keys))
    } else if op.first_nibble == 0xF {
        misc_spec(m, op, keys)
    } else {
        Ok(m)
    }
}

/// The machine that a step leaves behind and how the step ended, where
/// `before` is the machine it started from and `step` what it computed: a
/// step that fails leaves the machine as it was.
pub open spec fn outcome(before: Machine, step: Result<Machine, Chip8Error>) -> (
    Machine,
    Result<(), Chip8Error>,
) {
    match step {
        Ok(after) => (after, Ok(())),
        Err(e) => (before, Err(e)),
    }
}

/// Whether the cycle that starts in `m` runs an instruction that draws a
/// random byte.
pub open spec fn cycle_is_random(m: Machine) -> bool {
    match fetch_spec(m) {
        Ok((word, _)) => decode_spec(word).first_nibble == 0xC,
        Err(_) => false,
    }
}

/// One whole cycle: fetch, decode, execute. The first component is the
/// machine after the cycle and the second says how the cycle ended. A cycle
/// whose fetch fails changes nothing; one whose instruction fails leaves only
/// the program counter past the instruction.
pub open spec fn cycle_spec(m: Machine, keys: Seq<bool>, random: u8) -> (
    Machine,
    Result<(), Chip8Error>,
) {
    match fetch_spec(m) {
        Err(e) => (m, Err(e)),
        Ok((word, fetched)) => outcome(
            fetched,
            execute_spec(fetched, decode_spec(word), keys, random),
        ),
    }
}

} // verus!
