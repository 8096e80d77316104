//! A CHIP-8 virtual machine: memory, timers, keypad and the fetch/decode/execute
//! core, with every instruction's effect stated as a contract over a
//! mathematical model of the machine.

pub mod display;
pub mod emulator;
pub mod error;
pub mod keypad;
