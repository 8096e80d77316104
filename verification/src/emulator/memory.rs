use vstd::prelude::*;
use crate::error::Chip8Error;

verus! {

/// Number of addressable bytes.
pub const MEMORY_SIZE: usize = 4096;

/// Address at which a program image is loaded and execution starts.
pub const ROM_START: usize = 0x200;

/// Address of the first byte of the built-in hexadecimal font.
pub const FONT_START: usize = 0x050;

/// Bytes in one glyph of the font.
pub const GLYPH_SIZE: usize = 5;

/// Bytes in the whole font: sixteen glyphs.
pub const FONT_SIZE: usize = 80;

/// Entries in the call stack.
pub const STACK_SIZE: usize = 16;

/// The 4 KiB address space and the call stack's storage.
pub struct Memory {
    pub data: [u8; 4096],
    pub stack: [u16; 16],
}

/// The built-in font: for each hexadecimal digit, five rows of a 4-pixel-wide
/// glyph, one row per byte, in the high nibble.
pub open spec fn font() -> Seq<u8> {
    seq![
        0xF0u8, 0x90, 0x90, 0x90, 0xF0,
        0x20, 0x60, 0x20, 0x20, 0x70,
        0xF0, 0x10, 0xF0, 0x80, 0xF0,
        0xF0, 0x10, 0xF0, 0x10, 0xF0,
        0x90, 0x90, 0xF0, 0x10, 0x10,
        0xF0, 0x80, 0xF0, 0x10, 0xF0,
        0xF0, 0x80, 0xF0, 0x90, 0xF0,
        0xF0, 0x10, 0x20, 0x40, 0x40,
        0xF0, 0x90, 0xF0, 0x90, 0xF0,
        0xF0, 0x90, 0xF0, 0x10, 0xF0,
        0xF0, 0x90, 0xF0, 0x90, 0x90,
        0xE0, 0x90, 0xE0, 0x90, 0xE0,
        0xF0, 0x80, 0x80, 0x80, 0xF0,
        0xE0, 0x90, 0x90, 0x90, 0xE0,
        0xF0, 0x80, 0xF0, 0x80, 0xF0,
        0xF0, 0x80, 0xF0, 0x80, 0x80,
    ]
}

/// `data` with `bytes` written over it from address `start` on.
pub open spec fn overlay(data: Seq<u8>, start: int, bytes: Seq<u8>) -> Seq<u8> {
    Seq::new(
        data.len(),
        |a: int|
            if start <= a < start + bytes.len() {
                bytes[a - start]
            } else {
                data[a]
            },
    )
}

/// What memory holds before a program is loaded: the font at its fixed
/// address and zero everywhere else.
pub open spec fn initial_data() -> Seq<u8> {
    overlay(Seq::new(MEMORY_SIZE as nat, |a: int| 0u8), FONT_START as int, font())
}

/// Whether a program image of `len` bytes fits above the load address.
pub open spec fn rom_fits(len: nat) -> bool {
    ROM_START + len <= MEMORY_SIZE
}

/// The outcome of loading `rom` into memory that holds `data`: what memory
/// holds afterwards, and how the load ended. An image that fits is copied to
/// the load address; one that does not is refused and memory stays as it was.
pub open spec fn load_rom_spec(data: Seq<u8>, rom: Seq<u8>) -> (Seq<u8>, Result<(), Chip8Error>) {
    if rom_fits(rom.len()) {
        (overlay(data, ROM_START as int, rom), Ok(()))
    } else {
        (data, Err(Chip8Error::RomTooLarge))
    }
}

/// The font as the bytes that are copied into memory.
fn font_table() -> (table: [u8; 80])
    ensures
        table@ == font(),
{
    let table: [u8; 80] = [
        0xF0, 0x90, 0x90, 0x90, 0xF0,
        0x20, 0x60, 0x20, 0x20, 0x70,
        0xF0, 0x10, 0xF0, 0x80, 0xF0,
        0xF0, 0x10, 0xF0, 0x10, 0xF0,
        0x90, 0x90, 0xF0, 0x10, 0x10,
        0xF0, 0x80, 0xF0, 0x10, 0xF0,
        0xF0, 0x80, 0xF0, 0x90, 0xF0,
        0xF0, 0x10, 0x20, 0x40, 0x40,
        0xF0, 0x90, 0xF0, 0x90, 0xF0,
        0xF0, 0x90, 0xF0, 0x10, 0xF0,
        0xF0, 0x90, 0xF0, 0x90, 0x90,
        0xE0, 0x90, 0xE0, 0x90, 0xE0,
        0xF0, 0x80, 0x80, 0x80, 0xF0,
        0xE0, 0x90, 0x90, 0x90, 0xE0,
        0xF0, 0x80, 0xF0, 0x80, 0xF0,
        0xF0, 0x80, 0xF0, 0x80, 0x80,
    ];
    assert(table@ =~= font());
    table
}

impl Memory {
    /// Memory with the font in place, everything else zero, and an all-zero stack.
    pub fn new() -> (memory: Memory)
        ensures
            memory.data@ == initial_data(),
            memory.stack@ == Seq::new(STACK_SIZE as nat, |k: int| 0u16),
    {
        let mut ram = Memory { data: [0; 4096], stack: [0; 16] };
        ram.load_font();
        assert(ram.data@ =~= initial_data());
        assert(ram.stack@ =~= Seq::new(STACK_SIZE as nat, |k: int| 0u16));
        ram
    }

    /// Copies `rom` to the load address. An image that does not fit is
    /// refused and nothing is written.
    pub fn load_rom(&mut self, rom: &[u8]) -> (result: Result<(), Chip8Error>)
        ensures
            (final(self).data@, result) == load_rom_spec(old(self).data@, rom@),
            final(self).stack == old(self).stack,
    {
        if rom.len() > MEMORY_SIZE - ROM_START {
            return Err(Chip8Error::RomTooLarge);
        }
        let mut k: usize = 0;
        while k < rom.len()
            invariant
                k <= rom.len(),
                rom.len() <= MEMORY_SIZE - ROM_START,
                self.stack == old(self).stack,
                self.data@ == overlay(old(self).data@, ROM_START as int, rom@.take(k as int)),
            decreases rom.len() - k,
        {
            self.data[ROM_START + k] = rom[k];
            k += 1;
        }
        assert(rom@.take(k as int) =~= rom@);
        Ok(())
    }

    /// Writes the font to its fixed address.
    pub fn load_font(&mut self)
        ensures
            final(self).data@ == overlay(old(self).data@, FONT_START as int, font()),
            final(self).stack == old(self).stack,
    {
        let table = font_table();
        let mut k: usize = 0;
        while k < FONT_SIZE
            invariant
                k <= FONT_SIZE,
                table@ == font(),
                self.stack == old(self).stack,
                self.data@ == overlay(old(self).data@, FONT_START as int, font().take(k as int)),
            decreases FONT_SIZE - k,
        {
            self.data[FONT_START + k] = table[k];
            k += 1;
        }
        assert(font().take(k as int) =~= font());
    }

    /// The byte at `addr`.
    pub fn read(&self, addr: usize) -> (value: u8)
        requires
            addr < MEMORY_SIZE,
        ensures
            value == self.data@[addr as int],
    {
        self.data[addr]
    }

    /// Stores `value` at `addr`.
    pub fn write(&mut self, addr: usize, value: u8)
        requires
            addr < MEMORY_SIZE,
        ensures
            final(self).data@ == old(self).data@.update(addr as int, value),
            final(self).stack == old(self).stack,
    {
        self.data[addr] = value;
    }
}

/// An image longer than the space above the load address is refused and
/// leaves memory as it was. Memory that was fresh is then still zero
/// everywhere but in the font.
pub proof fn lemma_oversized_rom_is_refused(data: Seq<u8>, rom: Seq<u8>)
    requires
        rom.len() > MEMORY_SIZE - ROM_START,
    ensures
        load_rom_spec(data, rom) == (data, Err::<(), Chip8Error>(Chip8Error::RomTooLarge)),
        forall|a: int|
            0 <= a < MEMORY_SIZE ==> #[trigger] load_rom_spec(initial_data(), rom).0[a] == (
            if FONT_START <= a < FONT_START + FONT_SIZE {
                font()[a - FONT_START]
            } else {
                0
            }),
{
}

/// An image that fits is copied whole to the load address, and nothing else
/// in memory changes.
pub proof fn lemma_fitting_rom_is_loaded(data: Seq<u8>, rom: Seq<u8>, a: int)
    requires
        data.len() == MEMORY_SIZE,
        rom.len() <= MEMORY_SIZE - ROM_START,
        0 <= a < MEMORY_SIZE,
    ensures
        load_rom_spec(data, rom).1 is Ok,
        load_rom_spec(data, rom).0.len() == MEMORY_SIZE,
        load_rom_spec(data, rom).0[a] == if ROM_START <= a < ROM_START + rom.len() {
            rom[a - ROM_START]
        } else {
            data[a]
        },
{
}

} // verus!
