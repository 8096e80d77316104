use chip8::emulator::memory::{Memory, FONT_SIZE, FONT_START, MEMORY_SIZE, ROM_START};
use chip8::error::Chip8Error;

const FONT: [u8; 80] = [
    0xF0, 0x90, 0x90, 0x90, 0xF0, 0x20, 0x60, 0x20, 0x20, 0x70, 0xF0, 0x10, 0xF0, 0x80, 0xF0, 0xF0,
    0x10, 0xF0, 0x10, 0xF0, 0x90, 0x90, 0xF0, 0x10, 0x10, 0xF0, 0x80, 0xF0, 0x10, 0xF0, 0xF0, 0x80,
    0xF0, 0x90, 0xF0, 0xF0, 0x10, 0x20, 0x40, 0x40, 0xF0, 0x90, 0xF0, 0x90, 0xF0, 0xF0, 0x90, 0xF0,
    0x10, 0xF0, 0xF0, 0x90, 0xF0, 0x90, 0x90, 0xE0, 0x90, 0xE0, 0x90, 0xE0, 0xF0, 0x80, 0x80, 0x80,
    0xF0, 0xE0, 0x90, 0x90, 0x90, 0xE0, 0xF0, 0x80, 0xF0, 0x80, 0xF0, 0xF0, 0x80, 0xF0, 0x80, 0x80,
];

fn assert_fresh(memory: &Memory) {
    for addr in 0..MEMORY_SIZE {
        let expected = if addr >= FONT_START && addr < FONT_START + FONT_SIZE {
            FONT[addr - FONT_START]
        } else {
            0
        };
        assert_eq!(memory.data[addr], expected, "address {:#05x}", addr);
    }
    assert_eq!(memory.stack, [0u16; 16]);
}

#[test]
fn new_memory_holds_font_and_zeros() {
    let memory = Memory::new();
    assert_fresh(&memory);
    assert_eq!(memory.data[0x050], 0xF0);
    assert_eq!(memory.data[0x09F], 0x80);
    assert_eq!(memory.data[0x04F], 0);
    assert_eq!(memory.data[0x0A0], 0);
}

#[test]
fn glyph_for_digit_starts_at_five_times_digit() {
    let memory = Memory::new();
    // glyph of 1 and of F
    assert_eq!(&memory.data[0x050 + 5..0x050 + 10], &[0x20, 0x60, 0x20, 0x20, 0x70]);
    assert_eq!(&memory.data[0x050 + 75..0x050 + 80], &[0xF0, 0x80, 0xF0, 0x80, 0x80]);
}

#[test]
fn load_rom_copies_to_load_address() {
    let mut memory = Memory::new();
    let rom = [0x12u8, 0x34, 0x56];
    assert_eq!(memory.load_rom(&rom), Ok(()));
    assert_eq!(memory.data[0x1FF], 0);
    assert_eq!(memory.data[0x200], 0x12);
    assert_eq!(memory.data[0x201], 0x34);
    assert_eq!(memory.data[0x202], 0x56);
    assert_eq!(memory.data[0x203], 0);
    assert_eq!(memory.data[0x050], 0xF0);
}

#[test]
fn load_rom_of_largest_size_fills_to_the_end() {
    let mut memory = Memory::new();
    let rom = vec![0xABu8; MEMORY_SIZE - ROM_START];
    assert_eq!(rom.len(), 3584);
    assert_eq!(memory.load_rom(&rom), Ok(()));
    assert_eq!(memory.data[0x200], 0xAB);
    assert_eq!(memory.data[4095], 0xAB);
    assert_eq!(memory.data[0x1FF], 0);
}

#[test]
fn load_rom_of_no_bytes_changes_nothing() {
    let mut memory = Memory::new();
    assert_eq!(memory.load_rom(&[]), Ok(()));
    assert_fresh(&memory);
}

#[test]
fn load_rom_too_large_is_refused_and_writes_nothing() {
    let mut memory = Memory::new();
    let rom = vec![0xFFu8; MEMORY_SIZE - ROM_START + 1];
    assert_eq!(memory.load_rom(&rom), Err(Chip8Error::RomTooLarge));
    assert_fresh(&memory);
}

#[test]
fn load_rom_far_too_large_is_refused() {
    let mut memory = Memory::new();
    let rom = vec![1u8; 10_000];
    assert_eq!(memory.load_rom(&rom), Err(Chip8Error::RomTooLarge));
    assert_fresh(&memory);
}

#[test]
fn load_rom_keeps_the_stack() {
    let mut memory = Memory::new();
    memory.stack[3] = 0x0abc;
    assert_eq!(memory.load_rom(&[1, 2]), Ok(()));
    assert_eq!(memory.stack[3], 0x0abc);
}

#[test]
fn read_and_write_bytes() {
    let mut memory = Memory::new();
    memory.write(0x300, 0x42);
    memory.write(4095, 0x99);
    assert_eq!(memory.read(0x300), 0x42);
    assert_eq!(memory.read(4095), 0x99);
    assert_eq!(memory.read(0x301), 0);
    assert_eq!(memory.read(0x050), 0xF0);
}

#[test]
fn load_font_restores_an_overwritten_font() {
    let mut memory = Memory::new();
    memory.write(0x050, 0);
    memory.write(0x09F, 0);
    memory.write(0x300, 7);
    memory.load_font();
    assert_eq!(memory.read(0x050), 0xF0);
    assert_eq!(memory.read(0x09F), 0x80);
    assert_eq!(memory.read(0x300), 7);
}
