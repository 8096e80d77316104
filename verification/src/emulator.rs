pub mod cpu;
pub mod machine;
pub mod memory;
pub mod opcode;
pub mod screen;
pub mod theorems;
pub mod timers;

use vstd::prelude::*;
use crate::emulator::cpu::{machine, Cpu};
use crate::emulator::machine::{Machine, REGISTER_COUNT};
use crate::emulator::memory::{initial_data, Memory, ROM_START, STACK_SIZE};
use crate::emulator::timers::Timers;

verus! {

/// A whole machine: memory, processor and timers.
pub struct Emulator {
    pub memory: Memory,
    pub cpu: Cpu,
    pub timers: Timers,
}

/// The machine at power-on with a buffer of `height` rows by `width`
/// columns: the font in memory, the program counter at the load address,
/// and everything else zero.
pub open spec fn initial_machine(height: usize, width: usize) -> Machine {
    Machine {
        v: Seq::new(REGISTER_COUNT as nat, |r: int| 0u8),
        pc: ROM_START as u16,
        sp: 0,
        i: 0,
        vram: Seq::new((height * width) as nat, |p: int| 0u8),
        draw_dirty: false,
        width: width,
        height: height,
        ram: initial_data(),
        stack: Seq::new(STACK_SIZE as nat, |k: int| 0u16),
        delay: 0,
        sound: 0,
    }
}

impl View for Emulator {
    type V = Machine;

    /// The machine that these parts make up.
    open spec fn view(&self) -> Machine {
        machine(self.cpu, self.memory, self.timers)
    }
}

impl Emulator {

    /// A machine at power-on with a buffer of `height` rows by `width` columns.
    pub fn new(height: usize, width: usize) -> (emulator: Emulator)
        requires
            height * width <= usize::MAX,
        ensures
            emulator.cpu.wf(),
            emulator@ == initial_machine(height, width),
    {
        let emulator = Emulator {
            memory: Memory::new(),
            cpu: Cpu::new(height, width),
            timers: Timers::new(),
        };
        assert(emulator@ =~= initial_machine(height, width));
        emulator
    }
}

} // verus!
