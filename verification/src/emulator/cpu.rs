use vstd::prelude::*;
use vstd::slice::slice_subrange;
use rand::Rng;
use crate::emulator::machine::{
    alu_spec, call_spec, cycle_is_random, cycle_spec, draw_spec, dump_registers, execute_spec,
    fetch_spec, key_skip_spec, load_registers, misc_spec, outcome, skip_if, system_spec, word_at,
    wrap16, wrap8, Machine, FLAG_REGISTER, REGISTER_COUNT,
};
use crate::emulator::memory::{Memory, FONT_START, GLYPH_SIZE, MEMORY_SIZE, ROM_START, STACK_SIZE};
use crate::emulator::opcode::{decode_spec, decode_word, lemma_decode_fields, Opcode};
use crate::emulator::screen::{draw_sprite, is_monochrome};
use crate::emulator::timers::Timers;
use crate::error::Chip8Error;
use crate::keypad::Keypad;

verus! {

/// The processor: registers, program counter, stack pointer, index register,
/// and the pixel buffer it draws into.
pub struct Cpu {
    /// The registers `V0` to `VF`.
    pub gen_registers: [u8; 16],
    /// The program counter.
    pub pc: u16,
    /// The number of return addresses on the call stack.
    pub sp: u16,
    /// The index register `I`.
    pub i: u16,
    /// The pixel buffer, row by row, one byte per pixel.
    pub vram: Vec<u8>,
    /// Set when the pixel buffer changes; whoever shows the buffer clears it.
    pub draw_dirty: bool,
    /// Pixels in a row of the buffer.
    pub width: usize,
    /// Rows in the buffer.
    pub height: usize,
}

/// The machine that a processor, a memory and a pair of timers make up.
pub open spec fn machine(cpu: Cpu, memory: Memory, timers: Timers) -> Machine {
    Machine {
        v: cpu.gen_registers@,
        pc: cpu.pc,
        sp: cpu.sp,
        i: cpu.i,
        vram: cpu.vram@,
        draw_dirty: cpu.draw_dirty,
        width: cpu.width,
        height: cpu.height,
        ram: memory.data@,
        stack: memory.stack@,
        delay: timers.delay,
        sound: timers.sound,
    }
}

/// A byte from `rand`'s thread-local generator: `rand::rng()` and then
/// `Rng::random::<u8>()`. Nothing is claimed of the byte. The generator is
/// seeded from the operating system on its first use in a thread, and
/// `rand` panics if that seeding fails.
#[verifier::external_body]
fn random_byte() -> (byte: u8) {
    let mut rng = rand::rng();
    rng.random()
}

impl Cpu {
    /// The pixel buffer has `width * height` pixels, each 0 or 1, and the
    /// stack pointer is within the stack.
    pub open spec fn wf(&self) -> bool {
        &&& self.vram@.len() == self.width * self.height
        &&& self.sp <= STACK_SIZE
        &&& is_monochrome(self.vram@)
    }

    /// A processor at the start of a program, with a dark buffer of
    /// `height` rows by `width` columns.
    pub fn new(height: usize, width: usize) -> (cpu: Cpu)
        requires
            height * width <= usize::MAX,
        ensures
            cpu.wf(),
            cpu.gen_registers@ == Seq::new(REGISTER_COUNT as nat, |r: int| 0u8),
            cpu.pc == ROM_START,
            cpu.sp == 0,
            cpu.i == 0,
            cpu.vram@ == Seq::new((height * width) as nat, |p: int| 0u8),
            !cpu.draw_dirty,
            cpu.width == width,
            cpu.height == height,
    {
        let vram = vec![0u8; height * width];
        let cpu = Cpu {
            gen_registers: [0; 16],
            pc: 0x200,
            sp: 0,
            i: 0,
            vram: vram,
            draw_dirty: false,
            width: width,
            height: height,
        };
        assert(cpu.gen_registers@ =~= Seq::new(REGISTER_COUNT as nat, |r: int| 0u8));
        assert(cpu.vram@ =~= Seq::new((height * width) as nat, |p: int| 0u8));
        assert(height * width == width * height) by (nonlinear_arith);
        cpu
    }

    /// Whether the processor is in a valid state, as every operation on it
    /// expects.
    pub fn is_valid(&self) -> (valid: bool)
        ensures
            valid == self.wf(),
    {
        let len = self.vram.len();
        let total = match self.width.checked_mul(self.height) {
            Some(total) => total,
            None => {
                return false;
            },
        };
        if len != total || self.sp as usize > STACK_SIZE {
            return false;
        }
        let mut p: usize = 0;
        while p < len
            invariant
                p <= len,
                len == self.vram@.len(),
                forall|q: int| 0 <= q < p ==> #[trigger] self.vram@[q] <= 1,
            decreases len - p,
        {
            if self.vram[p] > 1 {
                return false;
            }
            p += 1;
        }
        true
    }

    /// Reads the instruction word at the program counter, high byte first,
    /// and moves the program counter past it. A word that is not wholly
    /// inside memory is an error, and the program counter stays.
    pub fn fetch(&mut self, memory: &Memory) -> (result: Result<u16, Chip8Error>)
        ensures
            old(self).pc + 1 < MEMORY_SIZE ==> result == Ok::<u16, Chip8Error>(
                word_at(memory.data@, old(self).pc as int),
            ) && final(self).pc == old(self).pc + 2,
            old(self).pc + 1 >= MEMORY_SIZE ==> result == Err::<u16, Chip8Error>(
                Chip8Error::MemoryOutOfRange,
            ) && final(self).pc == old(self).pc,
            *final(self) == (Cpu { pc: final(self).pc, ..*old(self) }),
    {
        if self.pc as usize + 1 >= MEMORY_SIZE {
            return Err(Chip8Error::MemoryOutOfRange);
        }
        let first_byte = memory.data[self.pc as usize] as u16;
        let second_byte = memory.data[self.pc as usize + 1] as u16;
        let opcode = (first_byte << 8) | second_byte;
        self.pc += 2;
        Ok(opcode)
    }

    /// Splits an instruction word into its fields.
    pub fn decode(opcode: u16) -> (op: Opcode)
        ensures
            op == decode_spec(opcode),
            op.wf(),
    {
        decode_word(opcode)
    }

    /// Family 0: clear the screen, return from a subroutine, or nothing.
    fn execute_system(&mut self, opcode: Opcode, memory: &Memory) -> (result: Result<
        (),
        Chip8Error,
    >)
        requires
            old(self).wf(),
        ensures
            final(self).wf(),
            forall|timers: Timers|
                (machine(*final(self), *memory, timers), result) == outcome(
                    machine(*old(self), *memory, timers),
                    #[trigger] system_spec(machine(*old(self), *memory, timers), opcode),
                ),
    {
        if opcode.opcode == 0x00E0 {
            let mut p: usize = 0;
            while p < self.vram.len()
                invariant
                    p <= self.vram@.len(),
                    self.vram@.len() == old(self).vram@.len(),
                    *self == (Cpu { vram: self.vram, ..*old(self) }),
                    forall|q: int| 0 <= q < p ==> self.vram@[q] == 0,
                decreases self.vram@.len() - p,
            {
                self.vram[p] = 0;
                p += 1;
            }
            self.draw_dirty = true;
            proof {
                assert(self.vram@ =~= Seq::new(old(self).vram@.len(), |q: int| 0u8));
                assert forall|timers: Timers|
                    system_spec(machine(*old(self), *memory, timers), opcode) == Ok::<
                        Machine,
                        Chip8Error,
                    >(#[trigger] machine(*self, *memory, timers)) by {
                    assert(machine(*self, *memory, timers) =~= system_spec(
                        machine(*old(self), *memory, timers),
                        opcode,
                    )->Ok_0);
                }
            }
            Ok(())
        } else if opcode.opcode == 0x00EE {
            if self.sp == 0 {
                return Err(Chip8Error::StackUnderflow);
            }
            self.pc = memory.stack[(self.sp - 1) as usize];
            self.sp -= 1;
            Ok(())
        } else {
            Ok(())
        }
    }

    /// Family 2: call the subroutine at `nnn`.
    fn execute_call(&mut self, opcode: Opcode, memory: &mut Memory) -> (result: Result<
        (),
        Chip8Error,
    >)
        requires
            old(self).wf(),
        ensures
            final(self).wf(),
            forall|timers: Timers|
                (machine(*final(self), *final(memory), timers), result) == outcome(
                    machine(*old(self), *old(memory), timers),
                    #[trigger] call_spec(machine(*old(self), *old(memory), timers), opcode),
                ),
    {
        if self.sp as usize >= STACK_SIZE {
            return Err(Chip8Error::StackOverflow);
        }
        memory.stack[self.sp as usize] = self.pc;
        self.sp += 1;
        self.pc = opcode.nnn;
        proof {
            assert forall|timers: Timers|
                call_spec(machine(*old(self), *old(memory), timers), opcode) == Ok::<
                    Machine,
                    Chip8Error,
                >(#[trigger] machine(*self, *memory, timers)) by {
                assert(machine(*self, *memory, timers) =~= call_spec(
                    machine(*old(self), *old(memory), timers),
                    opcode,
                )->Ok_0);
            }
        }
        Ok(())
    }

    /// Family 8: the register-to-register operation `n` on `Vx` and `Vy`.
    fn execute_alu(&mut self, x: usize, y: usize, n: u8)
        requires
            x < REGISTER_COUNT,
            y < REGISTER_COUNT,
        ensures
            final(self).gen_registers@ == alu_spec(
                old(self).gen_registers@,
                x as int,
                y as int,
                n,
            ),
            *final(self) == (Cpu { gen_registers: final(self).gen_registers, ..*old(self) }),
    {
        let vx = self.gen_registers[x];
        let vy = self.gen_registers[y];
        if n == 0 {
            self.gen_registers[x] = vy;
        } else if n == 1 {
            self.gen_registers[x] = vx | vy;
        } else if n == 2 {
            self.gen_registers[x] = vx & vy;
        } else if n == 3 {
            self.gen_registers[x] = vx ^ vy;
        } else if n == 4 {
            let carry = vx as u16 + vy as u16 > 0xFF;
            self.gen_registers[x] = vx.wrapping_add(vy);
            self.gen_registers[FLAG_REGISTER] = if carry {
                1
            } else {
                0
            };
        } else if n == 5 {
            self.gen_registers[FLAG_REGISTER] = if vx > vy {
                1
            } else {
                0
            };
            self.gen_registers[x] = vx.wrapping_sub(vy);
        } else if n == 6 {
            self.gen_registers[FLAG_REGISTER] = vx & 1;
            self.gen_registers[x] = vx >> 1;
        } else if n == 7 {
            self.gen_registers[FLAG_REGISTER] = if vy > vx {
                1
            } else {
                0
            };
            self.gen_registers[x] = vy.wrapping_sub(vx);
        } else if n == 0xE {
            self.gen_registers[FLAG_REGISTER] = (vx >> 7) & 1;
            self.gen_registers[x] = vx << 1;
        }
        assert(self.gen_registers@ =~= alu_spec(old(self).gen_registers@, x as int, y as int, n));
    }

    /// Family D: draw the `n`-row sprite at `I` with its corner at (`Vx`, `Vy`).
    fn execute_draw(&mut self, opcode: Opcode, memory: &Memory) -> (result: Result<
        (),
        Chip8Error,
    >)
        requires
            old(self).wf(),
            opcode.x < REGISTER_COUNT,
            opcode.y < REGISTER_COUNT,
        ensures
            final(self).wf(),
            forall|timers: Timers|
                (machine(*final(self), *memory, timers), result) == outcome(
                    machine(*old(self), *memory, timers),
                    #[trigger] draw_spec(machine(*old(self), *memory, timers), opcode),
                ),
    {
        let vx = self.gen_registers[opcode.x as usize];
        let vy = self.gen_registers[opcode.y as usize];
        let col0 = if self.width == 0 {
            0
        } else {
            (vx as usize) & (self.width - 1)
        };
        let row0 = if self.height == 0 {
            0
        } else {
            (vy as usize) & (self.height - 1)
        };
        let n = opcode.n as usize;
        let rows = if row0 >= self.height {
            0
        } else if n < self.height - row0 {
            n
        } else {
            self.height - row0
        };
        let start = self.i as usize;
        if start + rows > MEMORY_SIZE {
            return Err(Chip8Error::MemoryOutOfRange);
        }
        let sprite = slice_subrange(memory.data.as_slice(), start, start + rows);
        let width = self.width;
        let height = self.height;
        let hit = draw_sprite(&mut self.vram, width, height, sprite, row0, col0);
        self.gen_registers[FLAG_REGISTER] = if hit.0 {
            1
        } else {
            0
        };
        if hit.1 {
            self.draw_dirty = true;
        }
        proof {
            assert forall|timers: Timers|
                draw_spec(machine(*old(self), *memory, timers), opcode) == Ok::<
                    Machine,
                    Chip8Error,
                >(#[trigger] machine(*self, *memory, timers)) by {
                assert(machine(*self, *memory, timers) =~= draw_spec(
                    machine(*old(self), *memory, timers),
                    opcode,
                )->Ok_0);
            }
        }
        Ok(())
    }

    /// Family F: timers, key wait, index arithmetic, and memory transfers.
    fn execute_misc(
        &mut self,
        opcode: Opcode,
        memory: &mut Memory,
        keypad: &Keypad,
        timers: &mut Timers,
    ) -> (result: Result<(), Chip8Error>)
        requires
            old(self).wf(),
            opcode.x < REGISTER_COUNT,
        ensures
            final(self).wf(),
            (machine(*final(self), *final(memory), *final(timers)), result) == outcome(
                machine(*old(self), *old(memory), *old(timers)),
                misc_spec(machine(*old(self), *old(memory), *old(timers)), opcode, keypad@),
            ),
    {
        let ghost before = machine(*self, *memory, *timers);
        let x = opcode.x as usize;
        let vx = self.gen_registers[x];
        let base = self.i as usize;
        if opcode.nn == 0x07 {
            self.gen_registers[x] = timers.delay;
        } else if opcode.nn == 0x0A {
            match keypad.pressed_key() {
                Some(key) => {
                    self.gen_registers[x] = key;
                },
                None => {
                    self.pc = self.pc.wrapping_sub(2);
                },
            }
        } else if opcode.nn == 0x15 {
            timers.delay = vx;
        } else if opcode.nn == 0x18 {
            timers.sound = vx;
        } else if opcode.nn == 0x1E {
            let sum: u32 = self.i as u32 + vx as u32;
            assert(sum & 0x0FFF == sum % 0x1000) by (bit_vector);
            self.i = (sum & 0x0FFF) as u16;
            self.gen_registers[FLAG_REGISTER] = if sum > 0x0FFF {
                1
            } else {
                0
            };
        } else if opcode.nn == 0x29 {
            let digit = vx & 0x0F;
            assert(vx & 0x0F < 16) by (bit_vector);
            let glyph = FONT_START + GLYPH_SIZE * (digit as usize);
            self.i = glyph as u16;
        } else if opcode.nn == 0x33 {
            if base + 2 >= MEMORY_SIZE {
                return Err(Chip8Error::MemoryOutOfRange);
            }
            memory.data[base] = vx / 100;
            memory.data[base + 1] = (vx / 10) % 10;
            memory.data[base + 2] = vx % 10;
        } else if opcode.nn == 0x55 {
            if base + x >= MEMORY_SIZE {
                return Err(Chip8Error::MemoryOutOfRange);
            }
            let mut r: usize = 0;
            while r <= x
                invariant
                    r <= x + 1,
                    x < REGISTER_COUNT,
                    base + x < MEMORY_SIZE,
                    *self == *old(self),
                    *timers == *old(timers),
                    memory.stack == old(memory).stack,
                    memory.data@ == dump_registers(
                        old(memory).data@,
                        self.gen_registers@,
                        base as int,
                        r - 1,
                    ),
                decreases x + 1 - r,
            {
                memory.data[base + r] = self.gen_registers[r];
                r += 1;
            }
        } else if opcode.nn == 0x65 {
            if base + x >= MEMORY_SIZE {
                return Err(Chip8Error::MemoryOutOfRange);
            }
            let mut r: usize = 0;
            while r <= x
                invariant
                    r <= x + 1,
                    x < REGISTER_COUNT,
                    base + x < MEMORY_SIZE,
                    base == self.i,
                    *memory == *old(memory),
                    *timers == *old(timers),
                    *self == (Cpu { gen_registers: self.gen_registers, ..*old(self) }),
                    self.gen_registers@ == load_registers(
                        old(self).gen_registers@,
                        memory.data@,
                        base as int,
                        r - 1,
                    ),
                decreases x + 1 - r,
            {
                self.gen_registers[r] = memory.data[base + r];
                r += 1;
            }
        }
        assert(machine(*self, *memory, *timers) =~= misc_spec(before, opcode, keypad@)->Ok_0);
        Ok(())
    }

    /// Carries out one decoded instruction on the machine that the
    /// processor, `memory` and `timers` make up. `keypad` tells which keys are
    /// held, and `random` is the byte that a random-number instruction mixes
    /// in. An instruction that fails changes nothing; a word that is no
    /// instruction does nothing.
    pub fn execute(
        &mut self,
        opcode: Opcode,
        memory: &mut Memory,
        keypad: &Keypad,
        timers: &mut Timers,
        random: u8,
    ) -> (result: Result<(), Chip8Error>)
        requires
            old(self).wf(),
            opcode.wf(),
        ensures
            final(self).wf(),
            (machine(*final(self), *final(memory), *final(timers)), result) == outcome(
                machine(*old(self), *old(memory), *old(timers)),
                execute_spec(
                    machine(*old(self), *old(memory), *old(timers)),
                    opcode,
                    keypad@,
                    random,
                ),
            ),
    {
        let ghost before = machine(*self, *memory, *timers);
        let ghost expected = execute_spec(before, opcode, keypad@, random);
        proof {
            lemma_decode_fields(opcode.opcode);
        }
        let x = opcode.x as usize;
        let y = opcode.y as usize;
        let vx = self.gen_registers[x];
        let vy = self.gen_registers[y];
        match opcode.first_nibble {
            0x0 => {
                assert(system_spec(before, opcode) == expected);
                self.execute_system(opcode, memory)
            },
            0x1 => {
                self.pc = opcode.nnn;
                assert(machine(*self, *memory, *timers) =~= (Machine { pc: opcode.nnn, ..before }));
                Ok(())
            },
            0x2 => {
                assert(call_spec(before, opcode) == expected);
                self.execute_call(opcode, memory)
            },
            0x3 => {
                self.skip_if(vx == opcode.nn);
                assert(machine(*self, *memory, *timers) =~= skip_if(before, vx == opcode.nn));
                Ok(())
            },
            0x4 => {
                self.skip_if(vx != opcode.nn);
                assert(machine(*self, *memory, *timers) =~= skip_if(before, vx != opcode.nn));
                Ok(())
            },
            0x5 => {
                self.skip_if(vx == vy);
                assert(machine(*self, *memory, *timers) =~= skip_if(before, vx == vy));
                Ok(())
            },
            0x6 => {
                self.gen_registers[x] = opcode.nn;
                assert(machine(*self, *memory, *timers) =~= (Machine {
                    v: before.v.update(x as int, opcode.nn),
                    ..before
                }));
                Ok(())
            },
            0x7 => {
                self.gen_registers[x] = vx.wrapping_add(opcode.nn);
                assert(machine(*self, *memory, *timers) =~= (Machine {
                    v: before.v.update(x as int, wrap8(vx + opcode.nn)),
                    ..before
                }));
                Ok(())
            },
            0x8 => {
                self.execute_alu(x, y, opcode.n);
                assert(machine(*self, *memory, *timers) =~= (Machine {
                    v: alu_spec(before.v, x as int, y as int, opcode.n),
                    ..before
                }));
                Ok(())
            },
            0x9 => {
                self.skip_if(vx != vy);
                assert(machine(*self, *memory, *timers) =~= skip_if(before, vx != vy));
                Ok(())
            },
            0xA => {
                self.i = opcode.nnn;
                assert(machine(*self, *memory, *timers) =~= (Machine { i: opcode.nnn, ..before }));
                Ok(())
            },
            0xB => {
                self.pc = opcode.nnn + self.gen_registers[0] as u16;
                assert(machine(*self, *memory, *timers) =~= (Machine {
                    pc: (opcode.nnn + before.v[0]) as u16,
                    ..before
                }));
                Ok(())
            },
            0xC => {
                self.gen_registers[x] = opcode.nn & random;
                assert(machine(*self, *memory, *timers) =~= (Machine {
                    v: before.v.update(x as int, opcode.nn & random),
                    ..before
                }));
                Ok(())
            },
            0xD => {
                assert(draw_spec(before, opcode) == expected);
                self.execute_draw(opcode, memory)
            },
            0xE => {
                let down = keypad.is_down(vx);
                if opcode.nn == 0x9E {
                    self.skip_if(down);
                } else if opcode.nn == 0xA1 {
                    self.skip_if(!down);
                }
                assert(machine(*self, *memory, *timers) =~= key_skip_spec(before, opcode, keypad@));
                Ok(())
            },
            0xF => {
                assert(misc_spec(before, opcode, keypad@) == expected);
                self.execute_misc(opcode, memory, keypad, timers)
            },
            _ => {
                assert(expected == Ok::<Machine, Chip8Error>(before));
                Ok(())
            },
        }
    }

    /// Skips the next instruction if `condition` holds.
    fn skip_if(&mut self, condition: bool)
        ensures
            final(self).pc == if condition {
                wrap16(old(self).pc + 2)
            } else {
                old(self).pc
            },
            *final(self) == (Cpu { pc: final(self).pc, ..*old(self) }),
    {
        if condition {
            self.pc = self.pc.wrapping_add(2);
        }
    }

    /// Runs one cycle: fetches the instruction at the program counter,
    /// decodes it and carries it out. A random-number instruction draws its
    /// byte from the thread's generator; every other cycle is determined by
    /// the machine and the keypad. A failed fetch changes nothing; a failed
    /// instruction leaves only the program counter past it.
    pub fn cpu_cycle(
        &mut self,
        memory: &mut Memory,
        keypad: &Keypad,
        timers: &mut Timers,
    ) -> (result: Result<(), Chip8Error>)
        requires
            old(self).wf(),
        ensures
            final(self).wf(),
            exists|random: u8|
                #[trigger] cycle_spec(
                    machine(*old(self), *old(memory), *old(timers)),
                    keypad@,
                    random,
                ) == (machine(*final(self), *final(memory), *final(timers)), result),
            !cycle_is_random(machine(*old(self), *old(memory), *old(timers))) ==> forall|
                random: u8,
            |
                #[trigger] cycle_spec(
                    machine(*old(self), *old(memory), *old(timers)),
                    keypad@,
                    random,
                ) == (machine(*final(self), *final(memory), *final(timers)), result),
    {
        let ghost before = machine(*self, *memory, *timers);
        let word = match self.fetch(memory) {
            Ok(word) => word,
            Err(e) => {
                assert(cycle_spec(before, keypad@, 0) == (machine(*self, *memory, *timers), Err::<
                    (),
                    Chip8Error,
                >(e)));
                return Err(e);
            },
        };
        let ghost fetched = machine(*self, *memory, *timers);
        assert(fetch_spec(before) == Ok::<(u16, Machine), Chip8Error>((word, fetched))) by {
            assert(fetched =~= fetch_spec(before)->Ok_0.1);
        }
        let opcode = Cpu::decode(word);
        let random = if opcode.first_nibble == 0xC {
            random_byte()
        } else {
            0
        };
        let result = self.execute(opcode, memory, keypad, timers, random);
        proof {
            let after = machine(*self, *memory, *timers);
            assert(cycle_spec(before, keypad@, random) == (after, result));
            if !cycle_is_random(before) {
                assert forall|other: u8| #[trigger]
                    cycle_spec(before, keypad@, other) == (after, result) by {
                    assert(execute_spec(fetched, opcode, keypad@, other) == execute_spec(
                        fetched,
                        opcode,
                        keypad@,
                        random,
                    ));
                }
            }
        }
        result
    }
}

} // verus!
