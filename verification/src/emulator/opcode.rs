use vstd::prelude::*;

verus! {

/// The fields of one 16-bit instruction word. A value lives for one cycle.
#[derive(Clone, Copy, Debug, PartialEq, Eq, Structural)]
pub struct Opcode {
    /// Bits 12-15: the instruction family.
    pub first_nibble: u8,
    /// Bits 8-11: a register index.
    pub x: u8,
    /// Bits 4-7: a register index.
    pub y: u8,
    /// Bits 0-3: a 4-bit immediate.
    pub n: u8,
    /// Bits 0-7: an 8-bit immediate.
    pub nn: u8,
    /// Bits 0-11: a 12-bit address.
    pub nnn: u16,
    /// The whole word.
    pub opcode: u16,
}

/// The fields of the instruction word `word`.
pub open spec fn decode_spec(word: u16) -> Opcode {
    Opcode {
        first_nibble: ((word & 0xF000) >> 12) as u8,
        x: ((word & 0x0F00) >> 8) as u8,
        y: ((word & 0x00F0) >> 4) as u8,
        n: (word & 0x000F) as u8,
        nn: (word & 0x00FF) as u8,
        nnn: word & 0x0FFF,
        opcode: word,
    }
}

/// Whether the word is an instruction of the machine. Families 0, 8, E and
/// F are told apart further by the whole word, the last digit or the low
/// byte; in the other families every word is an instruction.
pub open spec fn is_instruction(op: Opcode) -> bool {
    if op.first_nibble == 0x0 {
        op.opcode == 0x00E0 || op.opcode == 0x00EE
    } else if op.first_nibble == 0x8 {
        op.n <= 7 || op.n == 0xE
    } else if op.first_nibble == 0xE {
        op.nn == 0x9E || op.nn == 0xA1
    } else if op.first_nibble == 0xF {
        op.nn == 0x07 || op.nn == 0x0A || op.nn == 0x15 || op.nn == 0x18 || op.nn == 0x1E
            || op.nn == 0x29 || op.nn == 0x33 || op.nn == 0x55 || op.nn == 0x65
    } else {
        op.first_nibble < 16
    }
}

impl Opcode {
    /// The fields are those of the word the value holds.
    pub open spec fn wf(self) -> bool {
        self == decode_spec(self.opcode)
    }

    /// Whether the word is an instruction of the machine. A word that is none
    /// is carried out as a no-op; a caller that wants to report such words
    /// can tell them by this.
    pub fn is_implemented(&self) -> (known: bool)
        ensures
            known == is_instruction(*self),
    {
        if self.first_nibble == 0x0 {
            self.opcode == 0x00E0 || self.opcode == 0x00EE
        } else if self.first_nibble == 0x8 {
            self.n <= 7 || self.n == 0xE
        } else if self.first_nibble == 0xE {
            self.nn == 0x9E || self.nn == 0xA1
        } else if self.first_nibble == 0xF {
            self.nn == 0x07 || self.nn == 0x0A || self.nn == 0x15 || self.nn == 0x18 || self.nn
                == 0x1E || self.nn == 0x29 || self.nn == 0x33 || self.nn == 0x55 || self.nn
                == 0x65
        } else {
            self.first_nibble < 16
        }
    }
}

/// The fields of a word are its hexadecimal digits, alone or in groups, and
/// each lies in its range.
pub proof fn lemma_decode_fields(word: u16)
    ensures
        decode_spec(word).first_nibble < 16,
        decode_spec(word).x < 16,
        decode_spec(word).y < 16,
        decode_spec(word).n < 16,
        decode_spec(word).nnn < 4096,
        decode_spec(word).first_nibble == word / 4096,
        decode_spec(word).x == (word / 256) % 16,
        decode_spec(word).y == (word / 16) % 16,
        decode_spec(word).n == word % 16,
        decode_spec(word).nn == word % 256,
        decode_spec(word).nnn == word % 4096,
{
    assert(((word & 0xF000) >> 12) == word / 4096 && ((word & 0x0F00) >> 8) == (word / 256) % 16
        && ((word & 0x00F0) >> 4) == (word / 16) % 16) by (bit_vector);
    assert((word & 0x000F) == word % 16 && (word & 0x00FF) == word % 256 && (word & 0x0FFF) == word
        % 4096) by (bit_vector);
}

/// Splits an instruction word into its fields.
pub fn decode_word(word: u16) -> (op: Opcode)
    ensures
        op == decode_spec(word),
        op.wf(),
{
    proof {
        lemma_decode_fields(word);
    }
    Opcode {
        first_nibble: ((word & 0xF000) >> 12) as u8,
        x: ((word & 0x0F00) >> 8) as u8,
        y: ((word & 0x00F0) >> 4) as u8,
        n: (word & 0x000F) as u8,
        nn: (word & 0x00FF) as u8,
        nnn: word & 0x0FFF,
        opcode: word,
    }
}

} // verus!
